//! The configuration: host lists, hosts, commands and per-host aliases.
use vstd::prelude::*;
use clap::ArgMatches;
use indexmap::{IndexMap, IndexSet};
use vstd::std_specs::convert::FromSpecImpl;
use crate::model::{
    aliased, entry_for, exclusions, expansion, first_alias, hostnames_of, keyed_in,
    lemma_merged_onto_nothing, merged,
    plan_of, resolved_cmds, resolved_hosts, selected_names, substituted, MusshView,
    PlanEntry, RequestView,
};
use crate::ordered::{
    command_entries, command_map_from, pairs_of, phase_entries, phase_map_insert, phase_map_new,
    phase_view, plan_entries, plan_insert_absent, plan_new, plan_view, set_clone,
    set_intersection, set_items, set_new, set_retain_wanted, set_to_list,
};
use crate::sequences::{
    absent_from, collected, dedup, keys_of, lemma_collected_distinct, lemma_dedup_items,
    lemma_dedup_of_distinct, lemma_filter_agree, lemma_filter_items, lemma_filter_step,
    names_of, present_in, Name,
};
use crate::table::Table;
use crate::utils::{
    as_set, selector, selector_of, unwanted_host, CmdType, MultiplexMapType,
};

verus! {

/// An alias as contracts see it.
pub struct AliasView {
    /// The key of the command that runs instead.
    pub command: Name,
    /// The name of the command that the user asked for.
    pub aliasfor: Name,
}

/// A host as contracts see it.
pub struct HostView {
    /// The address; `localhost` means this machine.
    pub hostname: Name,
    /// The path of a private key file, if one is used.
    pub pem: Option<Name>,
    /// The port, if it is not the usual one.
    pub port: Option<u16>,
    /// The user to log in as.
    pub username: Name,
    /// The host's aliases, in the order in which they are tried.
    pub alias: Option<Seq<AliasView>>,
}

/// A rewrite of one command name on one host.
#[derive(Debug, Default, PartialEq, Eq)]
pub struct Alias {
    command: String,
    aliasfor: String,
}

impl View for Alias {
    type V = AliasView;

    closed spec fn view(&self) -> AliasView {
        AliasView { command: self.command@, aliasfor: self.aliasfor@ }
    }
}

impl Clone for Alias {
    fn clone(&self) -> (r: Self)
        ensures
            r@ == self@,
    {
        Alias { command: self.command.clone(), aliasfor: self.aliasfor.clone() }
    }
}

impl Alias {
    /// An alias that runs the command `command` where `aliasfor` is asked for.
    pub fn new(command: String, aliasfor: String) -> (r: Self)
        ensures
            r@ == (AliasView { command: command@, aliasfor: aliasfor@ }),
    {
        Alias { command, aliasfor }
    }

    /// The key of the command that runs instead.
    pub fn command(&self) -> (r: &String)
        ensures
            r@ == self@.command,
    {
        &self.command
    }

    /// The name of the command that the user asked for.
    pub fn aliasfor(&self) -> (r: &String)
        ensures
            r@ == self@.aliasfor,
    {
        &self.aliasfor
    }

    /// Sets the key of the command that runs instead.
    pub fn set_command(&mut self, command: String)
        ensures
            final(self)@ == (AliasView { command: command@, ..old(self)@ }),
    {
        self.command = command;
    }

    /// Sets the name of the command that the user asked for.
    pub fn set_aliasfor(&mut self, aliasfor: String)
        ensures
            final(self)@ == (AliasView { aliasfor: aliasfor@, ..old(self)@ }),
    {
        self.aliasfor = aliasfor;
    }
}

/// A command: the shell text to run.
#[derive(Debug, Default, PartialEq, Eq)]
pub struct Command {
    command: String,
}

impl View for Command {
    type V = Name;

    closed spec fn view(&self) -> Name {
        self.command@
    }
}

impl Clone for Command {
    fn clone(&self) -> (r: Self)
        ensures
            r@ == self@,
    {
        Command { command: self.command.clone() }
    }
}

impl Command {
    /// The command that runs the shell text `command`.
    pub fn new(command: String) -> (r: Self)
        ensures
            r@ == command@,
    {
        Command { command }
    }

    /// The shell text.
    pub fn command(&self) -> (r: &String)
        ensures
            r@ == self@,
    {
        &self.command
    }

    /// Sets the shell text.
    pub fn set_command(&mut self, command: String)
        ensures
            final(self)@ == command@,
    {
        self.command = command;
    }
}

/// A host list: nicknames of hosts, in order.
#[derive(Debug, Default, PartialEq, Eq)]
pub struct Hosts {
    hostnames: Vec<String>,
}

impl View for Hosts {
    type V = Seq<Name>;

    closed spec fn view(&self) -> Seq<Name> {
        names_of(self.hostnames@)
    }
}

/// A copy of `items`, name for name.
pub fn clone_names(items: &Vec<String>) -> (r: Vec<String>)
    ensures
        names_of(r@) == names_of(items@),
{
    let mut out: Vec<String> = Vec::new();
    let mut i: usize = 0;
    while i < items.len()
        invariant
            i <= items.len(),
            out.len() == i,
            forall|j: int| 0 <= j < i ==> out[j]@ == items[j]@,
        decreases items.len() - i,
    {
        out.push(items[i].clone());
        i += 1;
    }
    assert(names_of(out@) =~= names_of(items@));
    out
}

impl Clone for Hosts {
    fn clone(&self) -> (r: Self)
        ensures
            r@ == self@,
    {
        Hosts { hostnames: clone_names(&self.hostnames) }
    }
}

impl Hosts {
    /// The host list that holds `hostnames`.
    pub fn new(hostnames: Vec<String>) -> (r: Self)
        ensures
            r@ == names_of(hostnames@),
    {
        Hosts { hostnames }
    }

    /// The nicknames, in order.
    pub fn hostnames(&self) -> (r: &Vec<String>)
        ensures
            names_of(r@) == self@,
    {
        &self.hostnames
    }
}

/// The aliases that a list holds, in order.
pub open spec fn aliases_of(items: Seq<Alias>) -> Seq<AliasView> {
    items.map_values(|a: Alias| a@)
}

/// What an optional string holds.
pub open spec fn opt_name(s: Option<String>) -> Option<Name> {
    match s {
        Some(text) => Some(text@),
        None => None,
    }
}

/// What an optional list of aliases holds.
pub open spec fn opt_aliases(a: Option<Vec<Alias>>) -> Option<Seq<AliasView>> {
    match a {
        Some(items) => Some(aliases_of(items@)),
        None => None,
    }
}

/// A copy of `items`, alias for alias.
pub fn clone_aliases(items: &Vec<Alias>) -> (r: Vec<Alias>)
    ensures
        aliases_of(r@) == aliases_of(items@),
{
    let mut out: Vec<Alias> = Vec::new();
    let mut i: usize = 0;
    while i < items.len()
        invariant
            i <= items.len(),
            out.len() == i,
            forall|j: int| 0 <= j < i ==> out[j]@ == items[j]@,
        decreases items.len() - i,
    {
        out.push(items[i].clone());
        i += 1;
    }
    assert(aliases_of(out@) =~= aliases_of(items@));
    out
}

/// A host: where to reach it and how to log in.
#[derive(Debug, Default, PartialEq, Eq)]
pub struct Host {
    hostname: String,
    pem: Option<String>,
    port: Option<u16>,
    username: String,
    alias: Option<Vec<Alias>>,
}

impl View for Host {
    type V = HostView;

    closed spec fn view(&self) -> HostView {
        HostView {
            hostname: self.hostname@,
            pem: opt_name(self.pem),
            port: self.port,
            username: self.username@,
            alias: opt_aliases(self.alias),
        }
    }
}

impl Clone for Host {
    fn clone(&self) -> (r: Self)
        ensures
            r@ == self@,
    {
        let pem = match &self.pem {
            Some(path) => Some(path.clone()),
            None => None,
        };
        let alias = match &self.alias {
            Some(items) => Some(clone_aliases(items)),
            None => None,
        };
        Host {
            hostname: self.hostname.clone(),
            pem,
            port: self.port,
            username: self.username.clone(),
            alias,
        }
    }
}

impl Host {
    /// The host with these settings.
    pub fn new(
        hostname: String,
        pem: Option<String>,
        port: Option<u16>,
        username: String,
        alias: Option<Vec<Alias>>,
    ) -> (r: Self)
        ensures
            r@ == (HostView {
                hostname: hostname@,
                pem: opt_name(pem),
                port,
                username: username@,
                alias: opt_aliases(alias),
            }),
    {
        Host { hostname, pem, port, username, alias }
    }

    /// The address.
    pub fn hostname(&self) -> (r: &String)
        ensures
            r@ == self@.hostname,
    {
        &self.hostname
    }

    /// The path of the private key file, if one is used.
    pub fn pem(&self) -> (r: &Option<String>)
        ensures
            opt_name(*r) == self@.pem,
    {
        &self.pem
    }

    /// The port, if it is not the usual one.
    pub fn port(&self) -> (r: &Option<u16>)
        ensures
            *r == self@.port,
    {
        &self.port
    }

    /// The user to log in as.
    pub fn username(&self) -> (r: &String)
        ensures
            r@ == self@.username,
    {
        &self.username
    }

    /// The aliases, in the order in which they are tried.
    pub fn alias(&self) -> (r: &Option<Vec<Alias>>)
        ensures
            opt_aliases(*r) == self@.alias,
    {
        &self.alias
    }

    /// Sets the address.
    pub fn set_hostname(&mut self, hostname: String)
        ensures
            final(self)@ == (HostView { hostname: hostname@, ..old(self)@ }),
    {
        self.hostname = hostname;
    }

    /// Sets the user to log in as.
    pub fn set_username(&mut self, username: String)
        ensures
            final(self)@ == (HostView { username: username@, ..old(self)@ }),
    {
        self.username = username;
    }

    /// Sets the aliases.
    pub fn set_alias(&mut self, alias: Option<Vec<Alias>>)
        ensures
            final(self)@ == (HostView { alias: opt_aliases(alias), ..old(self)@ }),
    {
        self.alias = alias;
    }
}

/// A request: which hosts to run on, which of them go first through the
/// sync commands, and which commands to run in each phase.
#[derive(Debug, PartialEq, Eq)]
pub struct HostsCmds {
    hosts: IndexSet<String>,
    sync_hosts: IndexSet<String>,
    cmds: IndexSet<String>,
    sync_cmds: IndexSet<String>,
}

impl View for HostsCmds {
    type V = RequestView;

    closed spec fn view(&self) -> RequestView {
        RequestView {
            hosts: set_items(self.hosts),
            sync_hosts: set_items(self.sync_hosts),
            cmds: set_items(self.cmds),
            sync_cmds: set_items(self.sync_cmds),
        }
    }
}

impl Clone for HostsCmds {
    fn clone(&self) -> (r: Self)
        ensures
            r@ == self@,
    {
        HostsCmds {
            hosts: set_clone(&self.hosts),
            sync_hosts: set_clone(&self.sync_hosts),
            cmds: set_clone(&self.cmds),
            sync_cmds: set_clone(&self.sync_cmds),
        }
    }
}

impl Default for HostsCmds {
    fn default() -> (r: Self)
        ensures
            r@ == (RequestView {
                hosts: Seq::empty(),
                sync_hosts: Seq::empty(),
                cmds: Seq::empty(),
                sync_cmds: Seq::empty(),
            }),
    {
        HostsCmds {
            hosts: set_new(),
            sync_hosts: set_new(),
            cmds: set_new(),
            sync_cmds: set_new(),
        }
    }
}

/// The request that parsed arguments hold: the selectors `hosts`,
/// `sync_hosts`, `commands` and `sync_commands`.
pub open spec fn request_of(matches: ArgMatches<'_>) -> RequestView {
    RequestView {
        hosts: selector_of(matches, "hosts"@),
        sync_hosts: selector_of(matches, "sync_hosts"@),
        cmds: selector_of(matches, "commands"@),
        sync_cmds: selector_of(matches, "sync_commands"@),
    }
}

impl<'a> From<&ArgMatches<'a>> for HostsCmds {
    fn from(matches: &ArgMatches<'a>) -> (r: Self)
        ensures
            r@ == request_of(*matches),
    {
        HostsCmds {
            hosts: selector(matches, "hosts"),
            sync_hosts: selector(matches, "sync_hosts"),
            cmds: selector(matches, "commands"),
            sync_cmds: selector(matches, "sync_commands"),
        }
    }
}

impl<'a> FromSpecImpl<&ArgMatches<'a>> for HostsCmds {
    open spec fn obeys_from_spec() -> bool {
        false
    }

    open spec fn from_spec(matches: &ArgMatches<'a>) -> Self {
        arbitrary()
    }
}

impl HostsCmds {
    /// The request made of four lists of tokens; in each, repeats leave and
    /// what came first stays first.
    pub fn from_lists(
        hosts: Vec<String>,
        sync_hosts: Vec<String>,
        cmds: Vec<String>,
        sync_cmds: Vec<String>,
    ) -> (r: Self)
        ensures
            r@ == (RequestView {
                hosts: dedup(names_of(hosts@)),
                sync_hosts: dedup(names_of(sync_hosts@)),
                cmds: dedup(names_of(cmds@)),
                sync_cmds: dedup(names_of(sync_cmds@)),
            }),
    {
        HostsCmds {
            hosts: as_set(hosts),
            sync_hosts: as_set(sync_hosts),
            cmds: as_set(cmds),
            sync_cmds: as_set(sync_cmds),
        }
    }

    /// The host selector.
    pub fn hosts(&self) -> (r: &IndexSet<String>)
        ensures
            set_items(*r) == self@.hosts,
    {
        &self.hosts
    }

    /// The selector of the hosts that go first through the sync commands.
    pub fn sync_hosts(&self) -> (r: &IndexSet<String>)
        ensures
            set_items(*r) == self@.sync_hosts,
    {
        &self.sync_hosts
    }

    /// The names of the commands that run before the barrier.
    pub fn cmds(&self) -> (r: &IndexSet<String>)
        ensures
            set_items(*r) == self@.cmds,
    {
        &self.cmds
    }

    /// The names of the commands that run after the barrier.
    pub fn sync_cmds(&self) -> (r: &IndexSet<String>)
        ensures
            set_items(*r) == self@.sync_cmds,
    {
        &self.sync_cmds
    }

    /// Sets the host selector.
    pub fn set_hosts(&mut self, hosts: IndexSet<String>)
        ensures
            final(self)@ == (RequestView { hosts: set_items(hosts), ..old(self)@ }),
    {
        self.hosts = hosts;
    }

    /// Sets the selector of the hosts that go first.
    pub fn set_sync_hosts(&mut self, sync_hosts: IndexSet<String>)
        ensures
            final(self)@ == (RequestView { sync_hosts: set_items(sync_hosts), ..old(self)@ }),
    {
        self.sync_hosts = sync_hosts;
    }

    /// Sets the names of the commands that run before the barrier.
    pub fn set_cmds(&mut self, cmds: IndexSet<String>)
        ensures
            final(self)@ == (RequestView { cmds: set_items(cmds), ..old(self)@ }),
    {
        self.cmds = cmds;
    }

    /// Sets the names of the commands that run after the barrier.
    pub fn set_sync_cmds(&mut self, sync_cmds: IndexSet<String>)
        ensures
            final(self)@ == (RequestView { sync_cmds: set_items(sync_cmds), ..old(self)@ }),
    {
        self.sync_cmds = sync_cmds;
    }
}

/// Hosts with their nicknames as contracts see them.
pub open spec fn hosts_view(items: Seq<(String, Host)>) -> Seq<(Name, HostView)> {
    items.map_values(|e: (String, Host)| (e.0@, e.1@))
}

/// Commands with their names as contracts see them.
pub open spec fn cmds_view(items: Seq<(String, Command)>) -> Seq<(Name, Name)> {
    items.map_values(|e: (String, Command)| (e.0@, e.1@))
}

/// The configuration: host lists, hosts and commands, each by name.
#[derive(Debug, PartialEq, Eq)]
pub struct Mussh {
    hostlist: Table<Hosts>,
    hosts: Table<Host>,
    cmd: Table<Command>,
}

impl View for Mussh {
    type V = MusshView;

    closed spec fn view(&self) -> MusshView {
        MusshView {
            hostlist: Map::new(
                |name: Name| self.hostlist@.contains_key(name),
                |name: Name| self.hostlist@[name]@,
            ),
            hosts: Map::new(
                |name: Name| self.hosts@.contains_key(name),
                |name: Name| self.hosts@[name]@,
            ),
            cmd: Map::new(
                |name: Name| self.cmd@.contains_key(name),
                |name: Name| self.cmd@[name]@,
            ),
        }
    }
}

impl Clone for Mussh {
    fn clone(&self) -> (r: Self)
        ensures
            r@ == self@,
    {
        let r = Mussh {
            hostlist: self.hostlist.clone(),
            hosts: self.hosts.clone(),
            cmd: self.cmd.clone(),
        };
        assert(r@.hostlist =~= self@.hostlist);
        assert(r@.hosts =~= self@.hosts);
        assert(r@.cmd =~= self@.cmd);
        r
    }
}

impl Default for Mussh {
    fn default() -> (r: Self)
        ensures
            r@.hostlist == Map::<Name, Seq<Name>>::empty(),
            r@.hosts == Map::<Name, HostView>::empty(),
            r@.cmd == Map::<Name, Name>::empty(),
    {
        Mussh::new()
    }
}

impl Mussh {
    /// The configuration that knows no host list, host or command.
    pub fn new() -> (r: Self)
        ensures
            r@.hostlist == Map::<Name, Seq<Name>>::empty(),
            r@.hosts == Map::<Name, HostView>::empty(),
            r@.cmd == Map::<Name, Name>::empty(),
    {
        let r = Mussh { hostlist: Table::new(), hosts: Table::new(), cmd: Table::new() };
        assert(r@.hostlist =~= Map::<Name, Seq<Name>>::empty());
        assert(r@.hosts =~= Map::<Name, HostView>::empty());
        assert(r@.cmd =~= Map::<Name, Name>::empty());
        r
    }

    /// Stores the host list `hosts` under `name`, in place of what was
    /// stored there.
    pub fn insert_hostlist(&mut self, name: String, hosts: Hosts)
        ensures
            final(self)@ == (MusshView {
                hostlist: old(self)@.hostlist.insert(name@, hosts@),
                ..old(self)@
            }),
    {
        self.hostlist.insert(name, hosts);
        assert(self@.hostlist =~= old(self)@.hostlist.insert(name@, hosts@));
    }

    /// Stores the host `host` under the nickname `name`, in place of what
    /// was stored there.
    pub fn insert_host(&mut self, name: String, host: Host)
        ensures
            final(self)@ == (MusshView {
                hosts: old(self)@.hosts.insert(name@, host@),
                ..old(self)@
            }),
    {
        self.hosts.insert(name, host);
        assert(self@.hosts =~= old(self)@.hosts.insert(name@, host@));
    }

    /// Stores the command `command` under `name`, in place of what was
    /// stored there.
    pub fn insert_cmd(&mut self, name: String, command: Command)
        ensures
            final(self)@ == (MusshView {
                cmd: old(self)@.cmd.insert(name@, command@),
                ..old(self)@
            }),
    {
        self.cmd.insert(name, command);
        assert(self@.cmd =~= old(self)@.cmd.insert(name@, command@));
    }

    /// The host lists by name.
    pub fn hostlist(&self) -> (r: &Table<Hosts>)
        ensures
            r@.dom() == self@.hostlist.dom(),
            forall|name: Name| #[trigger] r@.contains_key(name) ==> r@[name]@ == self@.hostlist[name],
    {
        assert(self.hostlist@.dom() =~= self@.hostlist.dom());
        &self.hostlist
    }

    /// The hosts by nickname.
    pub fn hosts(&self) -> (r: &Table<Host>)
        ensures
            r@.dom() == self@.hosts.dom(),
            forall|name: Name| #[trigger] r@.contains_key(name) ==> r@[name]@ == self@.hosts[name],
    {
        assert(self.hosts@.dom() =~= self@.hosts.dom());
        &self.hosts
    }

    /// The commands by name.
    pub fn cmd(&self) -> (r: &Table<Command>)
        ensures
            r@.dom() == self@.cmd.dom(),
            forall|name: Name| #[trigger] r@.contains_key(name) ==> r@[name]@ == self@.cmd[name],
    {
        assert(self.cmd@.dom() =~= self@.cmd.dom());
        &self.cmd
    }

    /// The nicknames in the host list named `host`; none where there is no
    /// such host list.
    pub fn hostnames(&self, host: &str) -> (r: Vec<String>)
        ensures
            names_of(r@) == if self@.hostlist.contains_key(host@) {
                self@.hostlist[host@]
            } else {
                Seq::<Name>::empty()
            },
    {
        match self.hostlist.get(host) {
            Some(hosts) => clone_names(hosts.hostnames()),
            None => {
                let r: Vec<String> = Vec::new();
                assert(names_of(r@) =~= Seq::<Name>::empty());
                r
            },
        }
    }

    /// The nickname `hostname` with the host's record, where the
    /// configuration has one.
    pub fn host_tuple(&self, hostname: &str) -> (r: Option<(String, Host)>)
        ensures
            r is Some <==> self@.hosts.contains_key(hostname@),
            r matches Some(pair) ==> pair.0@ == hostname@ && pair.1@ == self@.hosts[hostname@],
    {
        match self.hosts.get(hostname) {
            Some(host) => Some((hostname.to_owned(), host.clone())),
            None => None,
        }
    }

    /// The name `cmd_name` with the command, where the configuration has one.
    pub fn cmd_tuple(&self, cmd_name: &str) -> (r: Option<(String, Command)>)
        ensures
            r is Some <==> self@.cmd.contains_key(cmd_name@),
            r matches Some(pair) ==> pair.0@ == cmd_name@ && pair.1@ == self@.cmd[cmd_name@],
    {
        match self.cmd.get(cmd_name) {
            Some(command) => Some((cmd_name.to_owned(), command.clone())),
            None => None,
        }
    }

    /// The name `cmd_name` with the shell text that `host` runs for it:
    /// where the host's first alias for `cmd_name` points at a command that
    /// the configuration knows, that command's text; else the text of
    /// `command`.
    pub fn cmd_map_tuple(&self, command: &Command, cmd_name: &str, host: &Host) -> (r: (
        String,
        String,
    ))
        ensures
            r.0@ == cmd_name@,
            r.1@ == substituted(self@, host@, cmd_name@, command@),
    {
        let name = cmd_name.to_owned();
        let mut text = command.command().clone();
        if let Some(alias_vec) = host.alias() {
            let ghost all = aliases_of(alias_vec@);
            assert(all.subrange(0, all.len() as int) =~= all);
            let mut i: usize = 0;
            while i < alias_vec.len()
                invariant
                    i <= alias_vec.len(),
                    all == aliases_of(alias_vec@),
                    host@.alias == Some(all),
                    name@ == cmd_name@,
                    text@ == command@,
                    first_alias(all, name@) == first_alias(
                        all.subrange(i as int, all.len() as int),
                        name@,
                    ),
                decreases alias_vec.len() - i,
            {
                let alias = &alias_vec[i];
                let ghost rest = all.subrange(i as int, all.len() as int);
                assert(rest[0] == alias@);
                if *alias.aliasfor() == name {
                    assert(first_alias(all, name@) == Some(alias@));
                    if let Some(target) = self.cmd.get(alias.command().as_str()) {
                        text = target.command().clone();
                    }
                    assert(self@.cmd.contains_key(alias@.command) <==> self.cmd@.contains_key(
                        alias@.command,
                    ));
                    return (name, text);
                }
                assert(rest.drop_first() =~= all.subrange(i + 1, all.len() as int));
                i += 1;
            }
            assert(all.subrange(all.len() as int, all.len() as int).len() == 0);
        }
        (name, text)
    }
}

impl Mussh {
    /// The names of the configured host lists, each once.
    pub fn configured_hostlists(&self) -> (r: IndexSet<String>)
        ensures
            set_items(r).no_duplicates(),
            forall|name: Name| #[trigger]
                set_items(r).contains(name) <==> self@.hostlist.contains_key(name),
    {
        let keys = self.hostlist.keys();
        proof {
            lemma_dedup_items(names_of(keys@));
            assert forall|name: Name| #[trigger]
                dedup(names_of(keys@)).contains(name) <==> self@.hostlist.contains_key(name) by {
                self.hostlist.lemma_key_order(name);
            }
        }
        as_set(keys)
    }

    /// The names of the configured commands, each once.
    pub fn configured_cmds(&self) -> (r: IndexSet<String>)
        ensures
            set_items(r).no_duplicates(),
            forall|name: Name| #[trigger]
                set_items(r).contains(name) <==> self@.cmd.contains_key(name),
    {
        let keys = self.cmd.keys();
        proof {
            lemma_dedup_items(names_of(keys@));
            assert forall|name: Name| #[trigger]
                dedup(names_of(keys@)).contains(name) <==> self@.cmd.contains_key(name) by {
                self.cmd.lemma_key_order(name);
            }
        }
        as_set(keys)
    }

    /// The requested names as a set of their own: the same names in the
    /// same order.
    pub fn requested(&self, commands: &IndexSet<String>) -> (r: IndexSet<String>)
        ensures
            set_items(r) == set_items(*commands),
            set_items(r).no_duplicates(),
    {
        let names = set_to_list(commands);
        proof {
            lemma_dedup_of_distinct(names_of(names@));
        }
        as_set(names)
    }

    /// The hosts that the tokens select: for each token that is not
    /// negative, the nicknames of the host list that it names; each host
    /// once, where it first occurs.
    pub fn expanded(&self, hosts: &IndexSet<String>) -> (r: IndexSet<String>)
        ensures
            set_items(r) == dedup(expansion(self@, set_items(*hosts))),
    {
        let tokens = set_to_list(hosts);
        let ghost toks = names_of(tokens@);
        let mut all: Vec<String> = Vec::new();
        let mut i: usize = 0;
        assert(names_of(all@) =~= expansion(self@, toks.take(0)));
        while i < tokens.len()
            invariant
                i <= tokens.len(),
                toks == names_of(tokens@),
                names_of(all@) == expansion(self@, toks.take(i as int)),
            decreases tokens.len() - i,
        {
            let token = &tokens[i];
            let ghost before = names_of(all@);
            proof {
                assert(toks.take(i + 1).drop_last() =~= toks.take(i as int));
                assert(toks.take(i + 1).last() == token@);
            }
            if unwanted_host(token.as_str()).is_none() {
                let mut names = self.hostnames(token.as_str());
                let ghost added = names_of(names@);
                all.append(&mut names);
                assert(names_of(all@) =~= before + added);
            } else {
                assert(before + hostnames_of(self@, token@) =~= before);
            }
            i += 1;
        }
        assert(toks.take(tokens.len() as int) =~= toks);
        as_set(all)
    }

    /// The hosts that the negative tokens exclude, each once, where it
    /// first occurs.
    pub fn unwanted(&self, hosts: &IndexSet<String>) -> (r: IndexSet<String>)
        ensures
            set_items(r) == dedup(exclusions(set_items(*hosts))),
    {
        Mussh::excluded(hosts)
    }

    /// The hosts that the negative tokens exclude, each once, where it
    /// first occurs. No configuration bears on it.
    pub fn excluded(hosts: &IndexSet<String>) -> (r: IndexSet<String>)
        ensures
            set_items(r) == dedup(exclusions(set_items(*hosts))),
    {
        let tokens = set_to_list(hosts);
        let ghost toks = names_of(tokens@);
        let mut out: Vec<String> = Vec::new();
        let mut i: usize = 0;
        assert(names_of(out@) =~= exclusions(toks.take(0)));
        while i < tokens.len()
            invariant
                i <= tokens.len(),
                toks == names_of(tokens@),
                names_of(out@) == exclusions(toks.take(i as int)),
            decreases tokens.len() - i,
        {
            let ghost before = names_of(out@);
            proof {
                assert(toks.take(i + 1).drop_last() =~= toks.take(i as int));
                assert(toks.take(i + 1).last() == tokens[i as int]@);
            }
            if let Some(name) = unwanted_host(tokens[i].as_str()) {
                out.push(name);
                assert(names_of(out@) =~= before.push(name@));
            }
            i += 1;
        }
        assert(toks.take(tokens.len() as int) =~= toks);
        as_set(out)
    }

    /// The nicknames that a host selector comes to: the selected hosts
    /// without the excluded ones and without those that are not themselves
    /// the name of a host list, in the order in which they were selected.
    pub fn selected(&self, hosts: &IndexSet<String>) -> (r: Vec<String>)
        ensures
            names_of(r@) == selected_names(self@, set_items(*hosts)),
            names_of(r@).no_duplicates(),
    {
        let mut expanded = self.expanded(hosts);
        let unwanted = self.unwanted(hosts);
        set_retain_wanted(&mut expanded, &unwanted);
        let configured = self.configured_hostlists();
        let names = set_intersection(&expanded, &configured);
        proof {
            let wanted = set_items(expanded);
            lemma_filter_agree(
                wanted,
                present_in(set_items(configured)),
                keyed_in(self@.hostlist),
            );
            lemma_dedup_items(expansion(self@, set_items(*hosts)));
            lemma_filter_items(
                dedup(expansion(self@, set_items(*hosts))),
                absent_from(set_items(unwanted)),
            );
            lemma_filter_items(wanted, keyed_in(self@.hostlist));
        }
        names
    }

    /// The hosts that a host selector comes to: the selected nicknames that
    /// the configuration has a record for, each with that record.
    pub fn actual_hosts(&self, hosts: &IndexSet<String>) -> (r: Vec<(String, Host)>)
        ensures
            hosts_view(r@) == resolved_hosts(self@, set_items(*hosts)),
            keys_of(hosts_view(r@)).no_duplicates(),
    {
        let names = self.selected(hosts);
        let ghost picked = names_of(names@);
        let ghost known = keyed_in(self@.hosts);
        let ghost record = |name: Name| (name, self@.hosts[name]);
        let mut out: Vec<(String, Host)> = Vec::new();
        let mut i: usize = 0;
        proof {
            reveal(Seq::filter);
            assert(picked.take(0).filter(known) =~= Seq::<Name>::empty());
            assert(hosts_view(out@) =~= picked.take(0).filter(known).map_values(record));
        }
        while i < names.len()
            invariant
                i <= names.len(),
                picked == names_of(names@),
                known == keyed_in(self@.hosts),
                record == |name: Name| (name, self@.hosts[name]),
                hosts_view(out@) == picked.take(i as int).filter(known).map_values(record),
            decreases names.len() - i,
        {
            let ghost before = hosts_view(out@);
            proof {
                lemma_filter_step(picked, known, i as int);
            }
            if let Some(pair) = self.host_tuple(names[i].as_str()) {
                let ghost added = (pair.0@, pair.1@);
                out.push(pair);
                assert(hosts_view(out@) =~= before.push(added));
                assert(picked.take(i as int).filter(known).push(picked[i as int]).map_values(
                    record,
                ) =~= before.push(added));
            }
            i += 1;
        }
        proof {
            assert(picked.take(names.len() as int) =~= picked);
            lemma_filter_items(picked, known);
            assert(keys_of(hosts_view(out@)) =~= picked.filter(known));
        }
        out
    }

    /// The commands that a command selector comes to: the requested names
    /// that the configuration knows, in the requested order, each with its
    /// command.
    pub fn actual_cmds(&self, commands: &IndexSet<String>) -> (r: Vec<(String, Command)>)
        ensures
            cmds_view(r@) == resolved_cmds(self@, set_items(*commands)),
            keys_of(cmds_view(r@)).no_duplicates(),
    {
        let requested = self.requested(commands);
        let configured = self.configured_cmds();
        let names = set_intersection(&requested, &configured);
        let ghost picked = names_of(names@);
        let ghost known = keyed_in(self@.cmd);
        let ghost record = |name: Name| (name, self@.cmd[name]);
        proof {
            lemma_filter_agree(set_items(requested), present_in(set_items(configured)), known);
            lemma_filter_items(set_items(requested), known);
        }
        let mut out: Vec<(String, Command)> = Vec::new();
        let mut i: usize = 0;
        proof {
            assert(picked.take(0) =~= Seq::<Name>::empty());
            assert(cmds_view(out@) =~= picked.take(0).map_values(record));
        }
        while i < names.len()
            invariant
                i <= names.len(),
                picked == names_of(names@),
                known == keyed_in(self@.cmd),
                record == |name: Name| (name, self@.cmd[name]),
                forall|j: int| 0 <= j < picked.len() ==> known(#[trigger] picked[j]),
                cmds_view(out@) == picked.take(i as int).map_values(record),
            decreases names.len() - i,
        {
            let ghost before = cmds_view(out@);
            assert(known(picked[i as int]));
            if let Some(pair) = self.cmd_tuple(names[i].as_str()) {
                let ghost added = (pair.0@, pair.1@);
                out.push(pair);
                assert(cmds_view(out@) =~= before.push(added));
                assert(picked.take(i + 1).map_values(record) =~= before.push(added));
            }
            i += 1;
        }
        proof {
            assert(picked.take(names.len() as int) =~= picked);
            assert(keys_of(cmds_view(out@)) =~= picked);
        }
        out
    }
}

impl Mussh {
    /// The commands as `target_host` runs them: the same names in the same
    /// order, each with the shell text that the host's aliases give it,
    /// stored one after the other.
    pub fn actual_cmd_map(&self, target_host: &Host, expected_cmds: &Vec<(String, Command)>) -> (r:
        IndexMap<String, String>)
        ensures
            command_entries(r) == collected(
                aliased(self@, target_host@, cmds_view(expected_cmds@)),
            ),
    {
        let ghost wanted = cmds_view(expected_cmds@);
        let mut pairs: Vec<(String, String)> = Vec::new();
        let mut i: usize = 0;
        assert(pairs_of(pairs@) =~= aliased(self@, target_host@, wanted.take(0)));
        while i < expected_cmds.len()
            invariant
                i <= expected_cmds.len(),
                wanted == cmds_view(expected_cmds@),
                pairs_of(pairs@) == aliased(self@, target_host@, wanted.take(i as int)),
            decreases expected_cmds.len() - i,
        {
            let ghost before = pairs_of(pairs@);
            let entry = &expected_cmds[i];
            let pair = self.cmd_map_tuple(&entry.1, entry.0.as_str(), target_host);
            let ghost added = (pair.0@, pair.1@);
            pairs.push(pair);
            assert(pairs_of(pairs@) =~= before.push(added));
            assert(aliased(self@, target_host@, wanted.take(i + 1)) =~= before.push(added));
            i += 1;
        }
        assert(wanted.take(expected_cmds.len() as int) =~= wanted);
        command_map_from(pairs)
    }

    /// Adds to `plan`, for each of `hosts` in order that it does not hold
    /// yet, the host's entry: its record and both phases, each with the
    /// commands as this host runs them.
    fn plan_hosts(
        &self,
        plan: &mut MultiplexMapType,
        hosts: &Vec<(String, Host)>,
        cmds: &Vec<(String, Command)>,
        sync_cmds: &Vec<(String, Command)>,
        Ghost(req): Ghost<RequestView>,
        Ghost(base): Ghost<Seq<(Name, HostView)>>,
    )
        requires
            cmds_view(cmds@) == resolved_cmds(self@, req.cmds),
            cmds_view(sync_cmds@) == resolved_cmds(self@, req.sync_cmds),
            keys_of(cmds_view(cmds@)).no_duplicates(),
            keys_of(cmds_view(sync_cmds@)).no_duplicates(),
            plan_view(*old(plan)) == base.map_values(
                |h: (Name, HostView)| entry_for(self@, req, h.0, h.1),
            ),
        ensures
            plan_view(*final(plan)) == merged(base, hosts_view(hosts@)).map_values(
                |h: (Name, HostView)| entry_for(self@, req, h.0, h.1),
            ),
    {
        let ghost cfg = self@;
        let ghost found = hosts_view(hosts@);
        let ghost entry = |h: (Name, HostView)| entry_for(cfg, req, h.0, h.1);
        let mut i: usize = 0;
        assert(merged(base, found.take(0)) == base);
        while i < hosts.len()
            invariant
                i <= hosts.len(),
                cfg == self@,
                found == hosts_view(hosts@),
                entry == |h: (Name, HostView)| entry_for(cfg, req, h.0, h.1),
                cmds_view(cmds@) == resolved_cmds(cfg, req.cmds),
                cmds_view(sync_cmds@) == resolved_cmds(cfg, req.sync_cmds),
                keys_of(cmds_view(cmds@)).no_duplicates(),
                keys_of(cmds_view(sync_cmds@)).no_duplicates(),
                plan_view(*plan) == merged(base, found.take(i as int)).map_values(entry),
            decreases hosts.len() - i,
        {
            let ghost front = merged(base, found.take(i as int));
            let ghost before = plan_entries(*plan);
            let ghost old_plan = *plan;
            let hostname = &hosts[i].0;
            let host = &hosts[i].1;
            let pre = self.actual_cmd_map(host, cmds);
            let post = self.actual_cmd_map(host, sync_cmds);
            let mut phases = phase_map_new();
            phase_map_insert(&mut phases, CmdType::Cmd, pre);
            proof {
                assert(!keys_of(Seq::<(CmdType, IndexMap<String, String>)>::empty()).contains(
                    CmdType::Cmd,
                ));
                assert(phase_entries(phases) =~= seq![(CmdType::Cmd, pre)]);
                if keys_of(phase_entries(phases)).contains(CmdType::SyncCmd) {
                    let j = choose|j: int|
                        0 <= j < keys_of(phase_entries(phases)).len() && keys_of(
                            phase_entries(phases),
                        )[j] == CmdType::SyncCmd;
                    assert(keys_of(phase_entries(phases))[j] == CmdType::Cmd);
                }
            }
            phase_map_insert(&mut phases, CmdType::SyncCmd, post);
            let record = host.clone();
            proof {
                assert(phase_entries(phases) =~= seq![
                    (CmdType::Cmd, pre),
                    (CmdType::SyncCmd, post),
                ]);
                let shown = aliased(cfg, host@, cmds_view(cmds@));
                let shown_sync = aliased(cfg, host@, cmds_view(sync_cmds@));
                assert(keys_of(shown) =~= keys_of(cmds_view(cmds@)));
                assert(keys_of(shown_sync) =~= keys_of(cmds_view(sync_cmds@)));
                lemma_collected_distinct(shown);
                lemma_collected_distinct(shown_sync);
                assert(phase_view(phases) =~= seq![
                    (CmdType::Cmd, shown),
                    (CmdType::SyncCmd, shown_sync),
                ]);
                assert(before.len() == plan_view(*plan).len());
                assert forall|j: int| 0 <= j < before.len() implies keys_of(before)[j] == keys_of(
                    front,
                )[j] by {
                    assert(plan_view(*plan)[j].hostname == before[j].0);
                    assert(front.map_values(entry)[j].hostname == front[j].0);
                }
                assert(keys_of(before) =~= keys_of(front));
                assert(found.take(i + 1).drop_last() =~= found.take(i as int));
                assert(found.take(i + 1).last() == (hostname@, host@));
            }
            plan_insert_absent(plan, hostname.clone(), (record, phases));
            proof {
                let after = merged(base, found.take(i + 1));
                if keys_of(front).contains(hostname@) {
                    assert(after == front);
                } else {
                    assert(after == front.push((hostname@, host@)));
                    assert(plan_entries(*plan) == before.push((hostname@, (record, phases))));
                    assert(entry((hostname@, host@)) == (PlanEntry {
                        hostname: hostname@,
                        host: record@,
                        phases: phase_view(phases),
                    }));
                    assert forall|j: int| 0 <= j < after.len() implies plan_view(*plan)[j]
                        == after.map_values(entry)[j] by {
                        if j < front.len() {
                            assert(plan_entries(*plan)[j] == before[j]);
                            assert(plan_view(old_plan)[j] == front.map_values(entry)[j]);
                        }
                    }
                    assert(plan_view(*plan) =~= after.map_values(entry));
                }
            }
            i += 1;
        }
        assert(found.take(hosts.len() as int) =~= found);
    }

    /// The plan that the request comes to: the primary hosts in the order
    /// in which they were selected, then the sync hosts that are not among
    /// them; for each host its record and both phases, each with the
    /// requested commands that the configuration knows, in the requested
    /// order, with the shell text that the host's aliases give them.
    pub fn to_host_map(&self, host_cmds: &HostsCmds) -> (r: MultiplexMapType)
        ensures
            plan_view(r) == plan_of(self@, host_cmds@),
    {
        let actual_hosts = self.actual_hosts(host_cmds.hosts());
        let actual_cmds = self.actual_cmds(host_cmds.cmds());
        let actual_sync_hosts = self.actual_hosts(host_cmds.sync_hosts());
        let actual_sync_cmds = self.actual_cmds(host_cmds.sync_cmds());

        let mut hosts_map = plan_new();
        let ghost req = host_cmds@;
        let ghost nothing = Seq::<(Name, HostView)>::empty();
        let ghost entry = |h: (Name, HostView)| entry_for(self@, req, h.0, h.1);
        assert(plan_view(hosts_map) =~= nothing.map_values(entry));
        self.plan_hosts(
            &mut hosts_map,
            &actual_hosts,
            &actual_cmds,
            &actual_sync_cmds,
            Ghost(req),
            Ghost(nothing),
        );
        proof {
            lemma_merged_onto_nothing(hosts_view(actual_hosts@));
        }
        self.plan_hosts(
            &mut hosts_map,
            &actual_sync_hosts,
            &actual_cmds,
            &actual_sync_cmds,
            Ghost(req),
            Ghost(hosts_view(actual_hosts@)),
        );
        hosts_map
    }
}

} // verus!
