//! What resolution means: from a configuration and a request to a plan,
//! stated on sequences and maps.
use vstd::prelude::*;
use crate::config::{AliasView, HostView};
use crate::sequences::{absent_from, dedup, keys_of, lookup, Name};
use crate::utils::{excluded_name, is_negative, CmdType};

verus! {

/// A configuration as contracts see it.
pub struct MusshView {
    /// The host lists by name: nicknames of hosts, in order.
    pub hostlist: Map<Name, Seq<Name>>,
    /// The hosts by nickname.
    pub hosts: Map<Name, HostView>,
    /// The commands by name: their shell text.
    pub cmd: Map<Name, Name>,
}

/// A request as contracts see it: four selectors, each without repeats.
pub struct RequestView {
    /// Host lists to run on; a token that starts with `!` excludes a host.
    pub hosts: Seq<Name>,
    /// Host lists whose hosts run their sync commands first.
    pub sync_hosts: Seq<Name>,
    /// Names of the commands that run before the barrier.
    pub cmds: Seq<Name>,
    /// Names of the commands that run after it.
    pub sync_cmds: Seq<Name>,
}

/// One host of a plan as contracts see it.
pub struct PlanEntry {
    /// The host's nickname.
    pub hostname: Name,
    /// The host's record.
    pub host: HostView,
    /// The host's commands by phase, name and shell text.
    pub phases: Seq<(CmdType, Seq<(Name, Name)>)>,
}

/// The test "is a key of `m`".
pub open spec fn keyed_in<V>(m: Map<Name, V>) -> spec_fn(Name) -> bool {
    |name: Name| m.contains_key(name)
}

/// The hosts that one token selects: those of the host list that it names.
/// A negative token, or one that names no host list, selects none.
pub open spec fn hostnames_of(cfg: MusshView, token: Name) -> Seq<Name> {
    if !is_negative(token) && cfg.hostlist.contains_key(token) {
        cfg.hostlist[token]
    } else {
        Seq::empty()
    }
}

/// The hosts that the tokens select, one token after the other, repeats
/// included.
pub open spec fn expansion(cfg: MusshView, tokens: Seq<Name>) -> Seq<Name>
    decreases tokens.len(),
{
    if tokens.len() == 0 {
        Seq::empty()
    } else {
        expansion(cfg, tokens.drop_last()) + hostnames_of(cfg, tokens.last())
    }
}

/// The hosts that the negative tokens exclude, one token after the other,
/// repeats included.
pub open spec fn exclusions(tokens: Seq<Name>) -> Seq<Name>
    decreases tokens.len(),
{
    if tokens.len() == 0 {
        Seq::empty()
    } else {
        let front = exclusions(tokens.drop_last());
        match excluded_name(tokens.last()) {
            Some(name) => front.push(name),
            None => front,
        }
    }
}

/// The nicknames that a host selector comes to: what the tokens select,
/// each host where it first occurs, without the excluded hosts and without
/// those that are not themselves the name of a host list.
pub open spec fn selected_names(cfg: MusshView, tokens: Seq<Name>) -> Seq<Name> {
    dedup(expansion(cfg, tokens)).filter(absent_from(dedup(exclusions(tokens)))).filter(
        keyed_in(cfg.hostlist),
    )
}

/// The hosts that a host selector comes to: the selected nicknames that the
/// configuration has a record for, each with that record.
pub open spec fn resolved_hosts(cfg: MusshView, tokens: Seq<Name>) -> Seq<(Name, HostView)> {
    selected_names(cfg, tokens).filter(keyed_in(cfg.hosts)).map_values(
        |name: Name| (name, cfg.hosts[name]),
    )
}

/// The commands that a command selector comes to: the requested names that
/// the configuration knows, in the requested order, each with its shell
/// text.
pub open spec fn resolved_cmds(cfg: MusshView, names: Seq<Name>) -> Seq<(Name, Name)> {
    names.filter(keyed_in(cfg.cmd)).map_values(|name: Name| (name, cfg.cmd[name]))
}

/// The first alias in the list that stands for `name`, if there is one.
pub open spec fn first_alias(aliases: Seq<AliasView>, name: Name) -> Option<AliasView>
    decreases aliases.len(),
{
    if aliases.len() == 0 {
        None
    } else if aliases[0].aliasfor == name {
        Some(aliases[0])
    } else {
        first_alias(aliases.drop_first(), name)
    }
}

/// The shell text that `host` runs for the command `name`, whose own text
/// is `text`: where the host's first alias for `name` points at a command
/// that the configuration knows, that command's text; else `text`.
pub open spec fn substituted(cfg: MusshView, host: HostView, name: Name, text: Name) -> Name {
    match host.alias {
        Some(aliases) => match first_alias(aliases, name) {
            Some(alias) => if cfg.cmd.contains_key(alias.command) {
                cfg.cmd[alias.command]
            } else {
                text
            },
            None => text,
        },
        None => text,
    }
}

/// The commands as `host` runs them: the same names in the same order, each
/// with the text that the host's aliases give it.
pub open spec fn aliased(cfg: MusshView, host: HostView, cmds: Seq<(Name, Name)>) -> Seq<
    (Name, Name),
> {
    cmds.map_values(|c: (Name, Name)| (c.0, substituted(cfg, host, c.0, c.1)))
}

/// `first` followed by the entries of `second` whose key has not occurred.
pub open spec fn merged<V>(first: Seq<(Name, V)>, second: Seq<(Name, V)>) -> Seq<(Name, V)>
    decreases second.len(),
{
    if second.len() == 0 {
        first
    } else {
        let front = merged(first, second.drop_last());
        if keys_of(front).contains(second.last().0) {
            front
        } else {
            front.push(second.last())
        }
    }
}

/// The hosts of the plan: the primary hosts, then the sync hosts that are
/// not among them.
pub open spec fn planned_hosts(cfg: MusshView, req: RequestView) -> Seq<(Name, HostView)> {
    merged(resolved_hosts(cfg, req.hosts), resolved_hosts(cfg, req.sync_hosts))
}

/// The plan's entry for one host: both phases, each with the requested
/// commands as this host runs them.
pub open spec fn entry_for(cfg: MusshView, req: RequestView, hostname: Name, host: HostView)
    -> PlanEntry {
    PlanEntry {
        hostname,
        host,
        phases: seq![
            (CmdType::Cmd, aliased(cfg, host, resolved_cmds(cfg, req.cmds))),
            (CmdType::SyncCmd, aliased(cfg, host, resolved_cmds(cfg, req.sync_cmds))),
        ],
    }
}

/// The plan that a request comes to under a configuration.
pub open spec fn plan_of(cfg: MusshView, req: RequestView) -> Seq<PlanEntry> {
    planned_hosts(cfg, req).map_values(
        |h: (Name, HostView)| entry_for(cfg, req, h.0, h.1),
    )
}

/// Entries under keys that all differ, merged onto nothing, stay as they
/// are.
pub proof fn lemma_merged_onto_nothing<V>(entries: Seq<(Name, V)>)
    requires
        keys_of(entries).no_duplicates(),
    ensures
        merged(Seq::<(Name, V)>::empty(), entries) == entries,
    decreases entries.len(),
{
    if entries.len() > 0 {
        let front = entries.drop_last();
        let keys = keys_of(entries);
        assert(keys_of(front) =~= keys.drop_last());
        lemma_merged_onto_nothing(front);
        if keys_of(front).contains(entries.last().0) {
            let i = choose|i: int|
                0 <= i < front.len() && keys_of(front)[i] == entries.last().0;
            assert(keys[i] == keys[entries.len() - 1]);
        }
        assert(front.push(entries.last()) =~= entries);
    }
}

/// One worker as contracts see it: a host, its commands for each phase, and
/// whether it is a sync host.
pub struct WorkerView {
    /// The host's nickname.
    pub hostname: Name,
    /// The host's record.
    pub host: HostView,
    /// The commands that run before the barrier, name and shell text.
    pub pre_cmds: Seq<(Name, Name)>,
    /// The commands that run after it.
    pub sync_cmds: Seq<(Name, Name)>,
    /// Whether the host is one of those that go first through the sync
    /// commands.
    pub sync_host: bool,
}

/// The commands that `phases` holds for `kind`; none where it has no such
/// phase.
pub open spec fn commands_in(phases: Seq<(CmdType, Seq<(Name, Name)>)>, kind: CmdType) -> Seq<
    (Name, Name),
> {
    match lookup(phases, kind) {
        Some(commands) => commands,
        None => Seq::empty(),
    }
}

/// The worker for one host of a plan.
pub open spec fn worker_for(sync_names: Seq<Name>, entry: PlanEntry) -> WorkerView {
    WorkerView {
        hostname: entry.hostname,
        host: entry.host,
        pre_cmds: commands_in(entry.phases, CmdType::Cmd),
        sync_cmds: commands_in(entry.phases, CmdType::SyncCmd),
        sync_host: sync_names.contains(entry.hostname),
    }
}

/// The workers for a plan: one for each host, in the plan's order.
pub open spec fn workers_for(sync_names: Seq<Name>, plan: Seq<PlanEntry>) -> Seq<WorkerView> {
    plan.map_values(|entry: PlanEntry| worker_for(sync_names, entry))
}

/// How many of the workers are for a sync host.
pub open spec fn sync_count(workers: Seq<WorkerView>) -> nat
    decreases workers.len(),
{
    if workers.len() == 0 {
        0
    } else {
        sync_count(workers.drop_last()) + if workers.last().sync_host {
            1nat
        } else {
            0nat
        }
    }
}

} // verus!
