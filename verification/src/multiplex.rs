//! A request, and what it comes to under a configuration.
use vstd::prelude::*;
use vstd::std_specs::convert::FromSpecImpl;
use clap::ArgMatches;
use indexmap::IndexSet;
use crate::config::{request_of, Mussh};
use crate::model::{exclusions, expansion, keyed_in, selected_names, RequestView};
use crate::ordered::{set_clone, set_intersection, set_items, set_new};
use crate::sequences::{
    dedup, lemma_dedup_of_distinct, lemma_filter_agree, lemma_filter_items, names_of,
    present_in, Name,
};
use crate::utils::{as_set, selector, CmdType, HostType};

verus! {

/// A request: which hosts to run on, which of them go first through the
/// sync commands, and which commands to run in each phase.
#[derive(Debug, PartialEq, Eq)]
pub struct Multiplex {
    hosts: IndexSet<String>,
    sync_hosts: IndexSet<String>,
    commands: IndexSet<String>,
    sync_commands: IndexSet<String>,
}

impl View for Multiplex {
    type V = RequestView;

    closed spec fn view(&self) -> RequestView {
        RequestView {
            hosts: set_items(self.hosts),
            sync_hosts: set_items(self.sync_hosts),
            cmds: set_items(self.commands),
            sync_cmds: set_items(self.sync_commands),
        }
    }
}

impl Clone for Multiplex {
    fn clone(&self) -> (r: Self)
        ensures
            r@ == self@,
    {
        Multiplex {
            hosts: set_clone(&self.hosts),
            sync_hosts: set_clone(&self.sync_hosts),
            commands: set_clone(&self.commands),
            sync_commands: set_clone(&self.sync_commands),
        }
    }
}

impl Default for Multiplex {
    fn default() -> (r: Self)
        ensures
            r@ == (RequestView {
                hosts: Seq::empty(),
                sync_hosts: Seq::empty(),
                cmds: Seq::empty(),
                sync_cmds: Seq::empty(),
            }),
    {
        Multiplex {
            hosts: set_new(),
            sync_hosts: set_new(),
            commands: set_new(),
            sync_commands: set_new(),
        }
    }
}

impl<'a> From<&'a ArgMatches<'a>> for Multiplex {
    fn from(matches: &'a ArgMatches<'a>) -> (r: Self)
        ensures
            r@ == request_of(*matches),
    {
        Multiplex {
            hosts: selector(matches, "hosts"),
            sync_hosts: selector(matches, "sync_hosts"),
            commands: selector(matches, "commands"),
            sync_commands: selector(matches, "sync_commands"),
        }
    }
}

impl<'a> FromSpecImpl<&'a ArgMatches<'a>> for Multiplex {
    open spec fn obeys_from_spec() -> bool {
        false
    }

    open spec fn from_spec(matches: &'a ArgMatches<'a>) -> Self {
        arbitrary()
    }
}

/// The tokens of the host selector that `host_type` names.
pub open spec fn host_tokens(req: RequestView, host_type: HostType) -> Seq<Name> {
    match host_type {
        HostType::Host => req.hosts,
        HostType::SyncHost => req.sync_hosts,
    }
}

/// The names of the command selector that `cmd_type` names.
pub open spec fn command_names(req: RequestView, cmd_type: CmdType) -> Seq<Name> {
    match cmd_type {
        CmdType::Cmd => req.cmds,
        CmdType::SyncCmd => req.sync_cmds,
    }
}

impl Multiplex {
    /// The request made of four lists of tokens; in each, repeats leave and
    /// what came first stays first.
    pub fn from_lists(
        hosts: Vec<String>,
        sync_hosts: Vec<String>,
        commands: Vec<String>,
        sync_commands: Vec<String>,
    ) -> (r: Self)
        ensures
            r@ == (RequestView {
                hosts: dedup(names_of(hosts@)),
                sync_hosts: dedup(names_of(sync_hosts@)),
                cmds: dedup(names_of(commands@)),
                sync_cmds: dedup(names_of(sync_commands@)),
            }),
    {
        Multiplex {
            hosts: as_set(hosts),
            sync_hosts: as_set(sync_hosts),
            commands: as_set(commands),
            sync_commands: as_set(sync_commands),
        }
    }

    /// The host selector.
    pub fn hosts(&self) -> (r: &IndexSet<String>)
        ensures
            set_items(*r) == self@.hosts,
    {
        &self.hosts
    }

    /// The selector of the hosts that go first through the sync commands.
    pub fn sync_hosts(&self) -> (r: &IndexSet<String>)
        ensures
            set_items(*r) == self@.sync_hosts,
    {
        &self.sync_hosts
    }

    /// The names of the commands that run before the barrier.
    pub fn commands(&self) -> (r: &IndexSet<String>)
        ensures
            set_items(*r) == self@.cmds,
    {
        &self.commands
    }

    /// The names of the commands that run after the barrier.
    pub fn sync_commands(&self) -> (r: &IndexSet<String>)
        ensures
            set_items(*r) == self@.sync_cmds,
    {
        &self.sync_commands
    }

    /// The selector that `host_type` names.
    fn host_selector(&self, host_type: &HostType) -> (r: &IndexSet<String>)
        ensures
            set_items(*r) == host_tokens(self@, *host_type),
    {
        match host_type {
            HostType::Host => &self.hosts,
            HostType::SyncHost => &self.sync_hosts,
        }
    }

    /// The requested command names of the phase `cmd_type`, as a set of
    /// their own.
    pub fn requested(&self, cmd_type: &CmdType) -> (r: IndexSet<String>)
        ensures
            set_items(r) == command_names(self@, *cmd_type),
    {
        match cmd_type {
            CmdType::Cmd => set_clone(&self.commands),
            CmdType::SyncCmd => set_clone(&self.sync_commands),
        }
    }

    /// The hosts that the tokens of `host_type` select, each once, where it
    /// first occurs.
    pub fn expanded(&self, config: &Mussh, host_type: &HostType) -> (r: IndexSet<String>)
        ensures
            set_items(r) == dedup(expansion(config@, host_tokens(self@, *host_type))),
    {
        config.expanded(self.host_selector(host_type))
    }

    /// The hosts that the negative tokens of `host_type` exclude, each once,
    /// where it first occurs.
    pub fn unwanted(&self, host_type: &HostType) -> (r: IndexSet<String>)
        ensures
            set_items(r) == dedup(exclusions(host_tokens(self@, *host_type))),
    {
        Mussh::excluded(self.host_selector(host_type))
    }

    /// The nicknames that the host selector of `host_type` comes to: the
    /// selected hosts without the excluded ones and without those that are
    /// not themselves the name of a host list.
    pub fn actual_hosts(&self, config: &Mussh, host_type: &HostType) -> (r: IndexSet<String>)
        ensures
            set_items(r) == selected_names(config@, host_tokens(self@, *host_type)),
    {
        let names = config.selected(self.host_selector(host_type));
        proof {
            lemma_dedup_of_distinct(names_of(names@));
        }
        as_set(names)
    }

    /// The command names of the phase `cmd_type` that the configuration
    /// knows, in the requested order.
    pub fn actual_cmds(&self, config: &Mussh, cmd_type: &CmdType) -> (r: IndexSet<String>)
        ensures
            set_items(r) == command_names(self@, *cmd_type).filter(keyed_in(config@.cmd)),
    {
        let requested = config.requested(&self.requested(cmd_type));
        let configured = config.configured_cmds();
        let names = set_intersection(&requested, &configured);
        proof {
            lemma_filter_agree(
                set_items(requested),
                present_in(set_items(configured)),
                keyed_in(config@.cmd),
            );
            lemma_filter_items(set_items(requested), keyed_in(config@.cmd));
            lemma_dedup_of_distinct(names_of(names@));
        }
        as_set(names)
    }

    /// Resolves the request under `config`: both host selectors and both
    /// command selectors. Nothing is kept of what they come to.
    pub fn multiplex(&self, config: &Mussh) {
        let _actual_hosts = self.actual_hosts(config, &HostType::Host);
        let _sync_hosts = self.actual_hosts(config, &HostType::SyncHost);
        let _actual_cmds = self.actual_cmds(config, &CmdType::Cmd);
        let _actual_sync_cmds = self.actual_cmds(config, &CmdType::SyncCmd);
    }
}

} // verus!
