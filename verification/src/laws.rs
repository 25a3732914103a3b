//! What holds of every resolution.
use vstd::prelude::*;
use crate::config::{AliasView, HostView, HostsCmds, Mussh};
use crate::model::{
    entry_for, exclusions, expansion, first_alias, hostnames_of, keyed_in, merged,
    plan_of, planned_hosts, resolved_hosts, selected_names, substituted,
    sync_count, workers_for, MusshView, PlanEntry, RequestView,
};
use crate::error::ErrView;
use crate::ordered::plan_view;
use crate::sequences::{
    absent_from, dedup, keys_of, lemma_dedup_items, lemma_filter_agree, lemma_filter_items, Name,
};
use crate::ssh::{failure_text, remote_turn, RemoteEvent, RemoteStep, TurnView};
use crate::utils::{excluded_name, is_negative, CmdType, MultiplexMapType};

verus! {

/// The test "is no negative token".
pub open spec fn positive() -> spec_fn(Name) -> bool {
    |token: Name| !is_negative(token)
}

/// Resolution is a function of what the configuration and the request
/// hold: two plans that come of equal inputs are equal, host for host and
/// command for command.
pub proof fn lemma_resolution_is_a_function(
    config_a: Mussh,
    request_a: HostsCmds,
    plan_a: MultiplexMapType,
    config_b: Mussh,
    request_b: HostsCmds,
    plan_b: MultiplexMapType,
)
    requires
        config_a@ == config_b@,
        request_a@ == request_b@,
        plan_view(plan_a) == plan_of(config_a@, request_a@),
        plan_view(plan_b) == plan_of(config_b@, request_b@),
    ensures
        plan_view(plan_a) == plan_view(plan_b),
{
}

/// A host is selected only if some configured host list holds it.
pub proof fn lemma_expansion_items(cfg: MusshView, tokens: Seq<Name>, name: Name)
    requires
        expansion(cfg, tokens).contains(name),
    ensures
        exists|i: int|
            0 <= i < tokens.len() && !is_negative(#[trigger] tokens[i])
                && cfg.hostlist.contains_key(tokens[i]) && cfg.hostlist[tokens[i]].contains(name),
    decreases tokens.len(),
{
    if tokens.len() > 0 {
        let front = expansion(cfg, tokens.drop_last());
        let last = hostnames_of(cfg, tokens.last());
        let j = choose|j: int| 0 <= j < (front + last).len() && (front + last)[j] == name;
        if j < front.len() {
            assert(front[j] == name);
            lemma_expansion_items(cfg, tokens.drop_last(), name);
            let i = choose|i: int|
                0 <= i < tokens.drop_last().len() && !is_negative(#[trigger] tokens.drop_last()[i])
                    && cfg.hostlist.contains_key(tokens.drop_last()[i])
                    && cfg.hostlist[tokens.drop_last()[i]].contains(name);
            assert(tokens[i] == tokens.drop_last()[i]);
        } else {
            assert(last[j - front.len()] == name);
            assert(last.contains(name));
            assert(!is_negative(tokens[tokens.len() - 1]));
        }
    }
}

/// What the tokens select depends on the tokens that are not negative
/// alone, in their order.
pub proof fn lemma_expansion_of_positives(cfg: MusshView, tokens: Seq<Name>)
    ensures
        expansion(cfg, tokens) == expansion(cfg, tokens.filter(positive())),
    decreases tokens.len(),
{
    reveal(Seq::filter);
    if tokens.len() > 0 {
        let front = tokens.drop_last();
        lemma_expansion_of_positives(cfg, front);
        if is_negative(tokens.last()) {
            assert(expansion(cfg, front) + hostnames_of(cfg, tokens.last()) =~= expansion(
                cfg,
                front,
            ));
        } else {
            let kept = front.filter(positive());
            assert(kept.push(tokens.last()).drop_last() =~= kept);
        }
    }
}

/// A host is excluded exactly when some token is its name behind a `!`.
pub proof fn lemma_exclusions_items(tokens: Seq<Name>, name: Name)
    ensures
        exclusions(tokens).contains(name) <==> exists|i: int|
            0 <= i < tokens.len() && excluded_name(#[trigger] tokens[i]) == Some(name),
    decreases tokens.len(),
{
    if tokens.len() > 0 {
        let front = tokens.drop_last();
        let held = exclusions(front);
        lemma_exclusions_items(front, name);
        if exclusions(tokens).contains(name) {
            let j = choose|j: int| 0 <= j < exclusions(tokens).len() && exclusions(tokens)[j] == name;
            if j < held.len() {
                assert(held[j] == name);
                assert(held.contains(name));
                let i = choose|i: int|
                    0 <= i < front.len() && excluded_name(#[trigger] front[i]) == Some(name);
                assert(excluded_name(tokens[i]) == Some(name));
            } else {
                assert(excluded_name(tokens[tokens.len() - 1]) == Some(name));
            }
        }
        if exists|i: int| 0 <= i < tokens.len() && excluded_name(#[trigger] tokens[i]) == Some(name) {
            let i = choose|i: int|
                0 <= i < tokens.len() && excluded_name(#[trigger] tokens[i]) == Some(name);
            if i < front.len() {
                assert(excluded_name(front[i]) == Some(name));
                assert(held.contains(name));
                let j = choose|j: int| 0 <= j < held.len() && held[j] == name;
                assert(exclusions(tokens)[j] == name);
            } else {
                assert(exclusions(tokens)[held.len() as int] == name);
            }
        }
    }
}

/// Two selectors that select the same hosts in the same order, and that
/// exclude the same of them, come to the same nicknames and the same hosts.
pub proof fn lemma_selected_by_parts(cfg: MusshView, a: Seq<Name>, b: Seq<Name>)
    requires
        expansion(cfg, a) == expansion(cfg, b),
        forall|name: Name| #[trigger]
            expansion(cfg, a).contains(name) ==> (exclusions(a).contains(name)
                <==> exclusions(b).contains(name)),
    ensures
        selected_names(cfg, a) == selected_names(cfg, b),
        resolved_hosts(cfg, a) == resolved_hosts(cfg, b),
{
    let found = dedup(expansion(cfg, a));
    lemma_dedup_items(expansion(cfg, a));
    lemma_dedup_items(exclusions(a));
    lemma_dedup_items(exclusions(b));
    assert forall|i: int| 0 <= i < found.len() implies absent_from(dedup(exclusions(a)))(
        #[trigger] found[i],
    ) == absent_from(dedup(exclusions(b)))(found[i]) by {
        assert(found.contains(found[i]));
        assert(expansion(cfg, a).contains(found[i]));
    }
    lemma_filter_agree(
        found,
        absent_from(dedup(exclusions(a))),
        absent_from(dedup(exclusions(b))),
    );
}

/// Negative tokens count wherever they stand: two selectors with the same
/// tokens that are not negative, in the same order, and with the same
/// negative tokens in whatever order and place, come to the same nicknames
/// and the same hosts.
pub proof fn lemma_exclusions_commute(cfg: MusshView, a: Seq<Name>, b: Seq<Name>)
    requires
        a.filter(positive()) == b.filter(positive()),
        forall|token: Name| is_negative(token) ==> (a.contains(token) <==> b.contains(token)),
    ensures
        dedup(exclusions(a)).to_set() == dedup(exclusions(b)).to_set(),
        selected_names(cfg, a) == selected_names(cfg, b),
        resolved_hosts(cfg, a) == resolved_hosts(cfg, b),
{
    lemma_expansion_of_positives(cfg, a);
    lemma_expansion_of_positives(cfg, b);
    assert forall|name: Name| exclusions(a).contains(name) <==> exclusions(b).contains(name) by {
        lemma_exclusions_items(a, name);
        lemma_exclusions_items(b, name);
        if exclusions(a).contains(name) {
            let i = choose|i: int| 0 <= i < a.len() && excluded_name(#[trigger] a[i]) == Some(name);
            assert(a.contains(a[i]));
            let j = choose|j: int| 0 <= j < b.len() && b[j] == a[i];
            assert(excluded_name(b[j]) == Some(name));
        }
        if exclusions(b).contains(name) {
            let i = choose|i: int| 0 <= i < b.len() && excluded_name(#[trigger] b[i]) == Some(name);
            assert(b.contains(b[i]));
            let j = choose|j: int| 0 <= j < a.len() && a[j] == b[i];
            assert(excluded_name(a[j]) == Some(name));
        }
    }
    lemma_selected_by_parts(cfg, a, b);
    lemma_dedup_items(exclusions(a));
    lemma_dedup_items(exclusions(b));
    assert(dedup(exclusions(a)).to_set() =~= dedup(exclusions(b)).to_set());
}

/// The keys of merged entries: those of the first list, then those of the
/// second that the first lacks.
pub proof fn lemma_merged_keys<V>(first: Seq<(Name, V)>, second: Seq<(Name, V)>)
    requires
        keys_of(second).no_duplicates(),
    ensures
        keys_of(merged(first, second)) == keys_of(first) + keys_of(second).filter(
            absent_from(keys_of(first)),
        ),
    decreases second.len(),
{
    reveal(Seq::filter);
    let late = absent_from(keys_of(first));
    if second.len() == 0 {
        assert(keys_of(first) + keys_of(second).filter(late) =~= keys_of(first));
    } else {
        let front = second.drop_last();
        let last = second.last();
        assert(keys_of(front) =~= keys_of(second).drop_last());
        lemma_merged_keys(first, front);
        let so_far = merged(first, front);
        lemma_filter_items(keys_of(front), late);
        if keys_of(so_far).contains(last.0) {
            let j = choose|j: int| 0 <= j < keys_of(so_far).len() && keys_of(so_far)[j] == last.0;
            if j < first.len() {
                assert(keys_of(first)[j] == last.0);
                assert(keys_of(first).contains(last.0));
            } else {
                let kept = keys_of(front).filter(late);
                assert(kept[j - first.len()] == last.0);
                assert(kept.contains(last.0));
                assert(keys_of(front).contains(last.0));
                let i = choose|i: int| 0 <= i < front.len() && keys_of(front)[i] == last.0;
                assert(keys_of(second)[i] == keys_of(second)[second.len() - 1]);
            }
        } else {
            if keys_of(first).contains(last.0) {
                let j = choose|j: int| 0 <= j < first.len() && keys_of(first)[j] == last.0;
                assert(keys_of(so_far)[j] == last.0);
            }
            assert(keys_of(so_far.push(last)) =~= keys_of(so_far).push(last.0));
            assert(keys_of(first) + keys_of(front).filter(late).push(last.0) =~= (keys_of(first)
                + keys_of(front).filter(late)).push(last.0));
        }
    }
}

/// The hosts that a selector comes to carry the selected nicknames that
/// the configuration has a record for, none of them twice.
pub proof fn lemma_resolved_host_names(cfg: MusshView, tokens: Seq<Name>)
    ensures
        keys_of(resolved_hosts(cfg, tokens)) == selected_names(cfg, tokens).filter(
            keyed_in(cfg.hosts),
        ),
        keys_of(resolved_hosts(cfg, tokens)).no_duplicates(),
{
    let found = expansion(cfg, tokens);
    lemma_dedup_items(found);
    lemma_filter_items(dedup(found), absent_from(dedup(exclusions(tokens))));
    lemma_filter_items(
        dedup(found).filter(absent_from(dedup(exclusions(tokens)))),
        keyed_in(cfg.hostlist),
    );
    lemma_filter_items(selected_names(cfg, tokens), keyed_in(cfg.hosts));
    assert(keys_of(resolved_hosts(cfg, tokens)) =~= selected_names(cfg, tokens).filter(
        keyed_in(cfg.hosts),
    ));
}

/// The order of a plan: the primary hosts in the order in which the primary
/// selector comes to them, then the hosts that the sync selector comes to
/// and that are not primary hosts, in its order. No host occurs twice.
pub proof fn lemma_plan_order(cfg: MusshView, req: RequestView)
    ensures
        plan_of(cfg, req).len() == planned_hosts(cfg, req).len(),
        forall|i: int|
            0 <= i < plan_of(cfg, req).len() ==> (#[trigger] plan_of(cfg, req)[i]).hostname
                == keys_of(planned_hosts(cfg, req))[i],
        keys_of(planned_hosts(cfg, req)) == keys_of(resolved_hosts(cfg, req.hosts)) + keys_of(
            resolved_hosts(cfg, req.sync_hosts),
        ).filter(absent_from(keys_of(resolved_hosts(cfg, req.hosts)))),
        keys_of(planned_hosts(cfg, req)).no_duplicates(),
{
    let first = keys_of(resolved_hosts(cfg, req.hosts));
    let second = keys_of(resolved_hosts(cfg, req.sync_hosts));
    let late = second.filter(absent_from(first));
    lemma_resolved_host_names(cfg, req.hosts);
    lemma_resolved_host_names(cfg, req.sync_hosts);
    lemma_merged_keys(resolved_hosts(cfg, req.hosts), resolved_hosts(cfg, req.sync_hosts));
    lemma_filter_items(second, absent_from(first));
    assert forall|i: int, j: int| 0 <= i < j < (first + late).len() implies (first + late)[i] != (
    first + late)[j] by {
        if j < first.len() {
        } else if i >= first.len() {
            assert(late[i - first.len()] != late[j - first.len()]);
        } else {
            assert(late.contains(late[j - first.len()]));
            assert(first.contains(first[i]));
        }
    }
}

/// The commands of every host of a plan: in each phase the requested names
/// that the configuration knows, in the requested order, each with the
/// shell text that the host's aliases give it.
pub proof fn lemma_plan_commands(cfg: MusshView, req: RequestView, i: int)
    requires
        0 <= i < plan_of(cfg, req).len(),
    ensures
        plan_of(cfg, req)[i].phases.len() == 2,
        plan_of(cfg, req)[i].phases[0].0 == CmdType::Cmd,
        plan_of(cfg, req)[i].phases[1].0 == CmdType::SyncCmd,
        keys_of(plan_of(cfg, req)[i].phases[0].1) == req.cmds.filter(keyed_in(cfg.cmd)),
        keys_of(plan_of(cfg, req)[i].phases[1].1) == req.sync_cmds.filter(keyed_in(cfg.cmd)),
        forall|k: int|
            0 <= k < plan_of(cfg, req)[i].phases[0].1.len() ==> (
            #[trigger] plan_of(cfg, req)[i].phases[0].1[k]).1 == substituted(
                cfg,
                plan_of(cfg, req)[i].host,
                req.cmds.filter(keyed_in(cfg.cmd))[k],
                cfg.cmd[req.cmds.filter(keyed_in(cfg.cmd))[k]],
            ),
        forall|k: int|
            0 <= k < plan_of(cfg, req)[i].phases[1].1.len() ==> (
            #[trigger] plan_of(cfg, req)[i].phases[1].1[k]).1 == substituted(
                cfg,
                plan_of(cfg, req)[i].host,
                req.sync_cmds.filter(keyed_in(cfg.cmd))[k],
                cfg.cmd[req.sync_cmds.filter(keyed_in(cfg.cmd))[k]],
            ),
{
    let entry = plan_of(cfg, req)[i];
    let host = planned_hosts(cfg, req)[i];
    assert(entry == entry_for(cfg, req, host.0, host.1));
    assert(keys_of(entry.phases[0].1) =~= req.cmds.filter(keyed_in(cfg.cmd)));
    assert(keys_of(entry.phases[1].1) =~= req.sync_cmds.filter(keyed_in(cfg.cmd)));
}

/// Where the first alias of a host for a command points at a command that
/// the configuration knows, the host runs that command's text.
pub proof fn lemma_alias_applies(
    cfg: MusshView,
    host: HostView,
    name: Name,
    text: Name,
    aliases: Seq<AliasView>,
    j: int,
)
    requires
        host.alias == Some(aliases),
        0 <= j < aliases.len(),
        aliases[j].aliasfor == name,
        cfg.cmd.contains_key(aliases[j].command),
        forall|i: int| 0 <= i < j ==> (#[trigger] aliases[i]).aliasfor != name,
    ensures
        substituted(cfg, host, name, text) == cfg.cmd[aliases[j].command],
{
    lemma_first_alias_at(aliases, name, j);
}

/// The first alias for `name` is the one before which no alias stands for
/// `name`.
pub proof fn lemma_first_alias_at(aliases: Seq<AliasView>, name: Name, j: int)
    requires
        0 <= j < aliases.len(),
        aliases[j].aliasfor == name,
        forall|i: int| 0 <= i < j ==> (#[trigger] aliases[i]).aliasfor != name,
    ensures
        first_alias(aliases, name) == Some(aliases[j]),
    decreases j,
{
    if j > 0 {
        assert(aliases[0].aliasfor != name);
        assert forall|i: int| 0 <= i < j - 1 implies (#[trigger] aliases.drop_first()[i]).aliasfor
            != name by {
            assert(aliases.drop_first()[i] == aliases[i + 1]);
        }
        lemma_first_alias_at(aliases.drop_first(), name, j - 1);
    }
}

/// No alias for `name` in the list means that none is found.
pub proof fn lemma_first_alias_none(aliases: Seq<AliasView>, name: Name)
    ensures
        first_alias(aliases, name) is None <==> forall|i: int|
            0 <= i < aliases.len() ==> (#[trigger] aliases[i]).aliasfor != name,
        first_alias(aliases, name) matches Some(alias) ==> aliases.contains(alias)
            && alias.aliasfor == name,
    decreases aliases.len(),
{
    if aliases.len() > 0 {
        let rest = aliases.drop_first();
        lemma_first_alias_none(rest, name);
        if aliases[0].aliasfor != name {
            if first_alias(rest, name) is None {
                assert forall|i: int| 0 <= i < aliases.len() implies (#[trigger] aliases[i]).aliasfor
                    != name by {
                    if i > 0 {
                        assert(rest[i - 1] == aliases[i]);
                    }
                }
            } else {
                let alias = first_alias(rest, name)->0;
                let k = choose|k: int| 0 <= k < rest.len() && rest[k] == alias;
                assert(aliases[k + 1] == alias);
            }
        } else {
            assert(aliases[0] == aliases[0]);
        }
    }
}

/// Where a host has no alias for a command whose target the configuration
/// knows, the host runs the command's own text.
pub proof fn lemma_alias_absent(cfg: MusshView, host: HostView, name: Name, text: Name)
    requires
        host.alias matches Some(aliases) ==> forall|i: int|
            0 <= i < aliases.len() && (#[trigger] aliases[i]).aliasfor == name
                ==> !cfg.cmd.contains_key(aliases[i].command),
    ensures
        substituted(cfg, host, name, text) == text,
{
    if host.alias is Some {
        let aliases = host.alias->0;
        lemma_first_alias_none(aliases, name);
        if first_alias(aliases, name) is Some {
            let alias = first_alias(aliases, name)->0;
            let k = choose|k: int| 0 <= k < aliases.len() && aliases[k] == alias;
            assert(aliases[k].aliasfor == name);
        }
    }
}

/// An alias that points at a command that the configuration does not know
/// changes nothing: where it is the host's first alias for the command,
/// the host runs the command's own text.
pub proof fn lemma_alias_to_unknown(
    cfg: MusshView,
    host: HostView,
    name: Name,
    text: Name,
    aliases: Seq<AliasView>,
    j: int,
)
    requires
        host.alias == Some(aliases),
        0 <= j < aliases.len(),
        aliases[j].aliasfor == name,
        !cfg.cmd.contains_key(aliases[j].command),
        forall|i: int| 0 <= i < j ==> (#[trigger] aliases[i]).aliasfor != name,
    ensures
        substituted(cfg, host, name, text) == text,
{
    lemma_first_alias_at(aliases, name, j);
}

/// A negative token put anywhere among the tokens changes neither what
/// they select nor what the other tokens exclude.
pub proof fn lemma_insert_negative(cfg: MusshView, tokens: Seq<Name>, at: int, token: Name)
    requires
        0 <= at <= tokens.len(),
        is_negative(token),
    ensures
        expansion(cfg, tokens.insert(at, token)) == expansion(cfg, tokens),
        forall|name: Name|
            exclusions(tokens.insert(at, token)).contains(name) <==> (#[trigger] exclusions(
                tokens,
            ).contains(name) || excluded_name(token) == Some(name)),
{
    let more = tokens.insert(at, token);
    let head = tokens.subrange(0, at);
    let rest = tokens.subrange(at, tokens.len() as int);
    assert(more =~= (head + seq![token]) + rest);
    assert(tokens =~= head + rest);
    Seq::filter_distributes_over_add(head + seq![token], rest, positive());
    Seq::filter_distributes_over_add(head, seq![token], positive());
    Seq::filter_distributes_over_add(head, rest, positive());
    assert(seq![token].filter(positive()) =~= Seq::<Name>::empty()) by {
        reveal_with_fuel(Seq::filter, 2);
        assert(seq![token].drop_last() =~= Seq::<Name>::empty());
        assert(seq![token].last() == token);
        assert(!positive()(token));
    }
    assert(head.filter(positive()) + Seq::<Name>::empty() =~= head.filter(positive()));
    lemma_expansion_of_positives(cfg, more);
    lemma_expansion_of_positives(cfg, tokens);
    assert forall|name: Name|
        exclusions(more).contains(name) <==> (#[trigger] exclusions(tokens).contains(name)
            || excluded_name(token) == Some(name)) by {
        lemma_exclusions_items(more, name);
        lemma_exclusions_items(tokens, name);
        if exclusions(more).contains(name) {
            let i = choose|i: int|
                0 <= i < more.len() && excluded_name(#[trigger] more[i]) == Some(name);
            if i < at {
                assert(excluded_name(tokens[i]) == Some(name));
            } else if i > at {
                assert(excluded_name(tokens[i - 1]) == Some(name));
            }
        }
        if exclusions(tokens).contains(name) {
            let i = choose|i: int|
                0 <= i < tokens.len() && excluded_name(#[trigger] tokens[i]) == Some(name);
            if i < at {
                assert(excluded_name(more[i]) == Some(name));
            } else {
                assert(excluded_name(more[i + 1]) == Some(name));
            }
        }
        if excluded_name(token) == Some(name) {
            assert(excluded_name(more[at]) == Some(name));
        }
    }
}

/// To exclude a host that the tokens do not select changes nothing,
/// wherever the negative token stands.
pub proof fn lemma_exclusion_without_match(
    cfg: MusshView,
    tokens: Seq<Name>,
    at: int,
    token: Name,
    name: Name,
)
    requires
        0 <= at <= tokens.len(),
        excluded_name(token) == Some(name),
        !expansion(cfg, tokens).contains(name),
    ensures
        selected_names(cfg, tokens.insert(at, token)) == selected_names(cfg, tokens),
        resolved_hosts(cfg, tokens.insert(at, token)) == resolved_hosts(cfg, tokens),
{
    lemma_insert_negative(cfg, tokens, at, token);
    lemma_selected_by_parts(cfg, tokens.insert(at, token), tokens);
}

/// A selector that excludes every host that it selects comes to nothing.
pub proof fn lemma_all_excluded(cfg: MusshView, tokens: Seq<Name>)
    requires
        forall|name: Name| #[trigger]
            expansion(cfg, tokens).contains(name) ==> exclusions(tokens).contains(name),
    ensures
        selected_names(cfg, tokens) == Seq::<Name>::empty(),
        resolved_hosts(cfg, tokens) == Seq::<(Name, HostView)>::empty(),
{
    let found = dedup(expansion(cfg, tokens));
    let wanted = found.filter(absent_from(dedup(exclusions(tokens))));
    lemma_dedup_items(expansion(cfg, tokens));
    lemma_dedup_items(exclusions(tokens));
    lemma_filter_items(found, absent_from(dedup(exclusions(tokens))));
    if wanted.len() > 0 {
        assert(wanted.contains(wanted[0]));
        assert(expansion(cfg, tokens).contains(wanted[0]));
    }
    assert(wanted =~= Seq::<Name>::empty());
    reveal(Seq::filter);
    assert(selected_names(cfg, tokens) =~= Seq::<Name>::empty());
    assert(resolved_hosts(cfg, tokens) =~= Seq::<(Name, HostView)>::empty());
}

/// A request that excludes, in each host selector, every host that the
/// selector selects comes to the empty plan.
pub proof fn lemma_all_excluded_plan(cfg: MusshView, req: RequestView)
    requires
        forall|name: Name| #[trigger]
            expansion(cfg, req.hosts).contains(name) ==> exclusions(req.hosts).contains(name),
        forall|name: Name| #[trigger]
            expansion(cfg, req.sync_hosts).contains(name) ==> exclusions(req.sync_hosts).contains(
                name,
            ),
    ensures
        plan_of(cfg, req) == Seq::<PlanEntry>::empty(),
{
    lemma_all_excluded(cfg, req.hosts);
    lemma_all_excluded(cfg, req.sync_hosts);
    assert(plan_of(cfg, req) =~= Seq::<PlanEntry>::empty());
}

/// The request that asks for nothing comes to the empty plan, and the
/// empty plan to no worker.
pub proof fn lemma_empty_request(cfg: MusshView, req: RequestView, sync_names: Seq<Name>)
    requires
        req.hosts.len() == 0,
        req.sync_hosts.len() == 0,
    ensures
        plan_of(cfg, req) == Seq::<PlanEntry>::empty(),
        workers_for(sync_names, plan_of(cfg, req)).len() == 0,
{
    assert(expansion(cfg, req.hosts) =~= Seq::<Name>::empty());
    assert(expansion(cfg, req.sync_hosts) =~= Seq::<Name>::empty());
    lemma_all_excluded_plan(cfg, req);
}

/// Every host of a plan is held by some configured host list: a host that
/// no host list holds is in no plan, whatever the request.
pub proof fn lemma_unlisted_host_unreachable(cfg: MusshView, req: RequestView, name: Name)
    requires
        forall|list: Name| #[trigger]
            cfg.hostlist.contains_key(list) ==> !cfg.hostlist[list].contains(name),
    ensures
        !keys_of(planned_hosts(cfg, req)).contains(name),
        forall|i: int|
            0 <= i < plan_of(cfg, req).len() ==> (#[trigger] plan_of(cfg, req)[i]).hostname != name,
{
    lemma_plan_order(cfg, req);
    lemma_unlisted_host_unselected(cfg, req.hosts, name);
    lemma_unlisted_host_unselected(cfg, req.sync_hosts, name);
    let first = keys_of(resolved_hosts(cfg, req.hosts));
    let second = keys_of(resolved_hosts(cfg, req.sync_hosts));
    let late = second.filter(absent_from(first));
    lemma_filter_items(second, absent_from(first));
    if (first + late).contains(name) {
        let j = choose|j: int| 0 <= j < (first + late).len() && (first + late)[j] == name;
        if j < first.len() {
            assert(first[j] == name);
            assert(first.contains(name));
        } else {
            assert(late[j - first.len()] == name);
            assert(late.contains(name));
        }
    }
    assert forall|i: int| 0 <= i < plan_of(cfg, req).len() implies (#[trigger] plan_of(
        cfg,
        req,
    )[i]).hostname != name by {
        assert(keys_of(planned_hosts(cfg, req))[i] == plan_of(cfg, req)[i].hostname);
    }
}

/// A host that no host list holds is among the hosts of no selector.
pub proof fn lemma_unlisted_host_unselected(cfg: MusshView, tokens: Seq<Name>, name: Name)
    requires
        forall|list: Name| #[trigger]
            cfg.hostlist.contains_key(list) ==> !cfg.hostlist[list].contains(name),
    ensures
        !selected_names(cfg, tokens).contains(name),
        !keys_of(resolved_hosts(cfg, tokens)).contains(name),
{
    let found = expansion(cfg, tokens);
    if found.contains(name) {
        lemma_expansion_items(cfg, tokens, name);
    }
    lemma_dedup_items(found);
    lemma_filter_items(dedup(found), absent_from(dedup(exclusions(tokens))));
    lemma_filter_items(
        dedup(found).filter(absent_from(dedup(exclusions(tokens)))),
        keyed_in(cfg.hostlist),
    );
    lemma_filter_items(selected_names(cfg, tokens), keyed_in(cfg.hosts));
    lemma_resolved_host_names(cfg, tokens);
}

/// Without sync hosts no worker is marked as one, and the barrier starts
/// at zero: every worker waits at a barrier that is already open.
pub proof fn lemma_no_sync_hosts(plan: Seq<PlanEntry>)
    ensures
        forall|i: int|
            0 <= i < plan.len() ==> !(#[trigger] workers_for(Seq::<Name>::empty(), plan)[i]).sync_host,
        sync_count(workers_for(Seq::<Name>::empty(), plan)) == 0,
    decreases plan.len(),
{
    let none = Seq::<Name>::empty();
    if plan.len() > 0 {
        lemma_no_sync_hosts(plan.drop_last());
        assert(workers_for(none, plan).drop_last() =~= workers_for(none, plan.drop_last()));
    }
}

/// Every merged entry is an entry of one of the two lists.
pub proof fn lemma_merged_items<V>(first: Seq<(Name, V)>, second: Seq<(Name, V)>, i: int)
    requires
        0 <= i < merged(first, second).len(),
    ensures
        first.contains(merged(first, second)[i]) || second.contains(merged(first, second)[i]),
    decreases second.len(),
{
    if second.len() == 0 {
        assert(first[i] == merged(first, second)[i]);
    } else {
        let front = merged(first, second.drop_last());
        if i < front.len() {
            lemma_merged_items(first, second.drop_last(), i);
            if second.drop_last().contains(front[i]) {
                let j = choose|j: int|
                    0 <= j < second.drop_last().len() && second.drop_last()[j] == front[i];
                assert(second[j] == front[i]);
            }
        } else {
            assert(second[second.len() - 1] == merged(first, second)[i]);
        }
    }
}

/// Every host that a selector comes to is the name of a configured host
/// list and has a configured record, which is the record it comes with.
pub proof fn lemma_resolved_hosts_configured(cfg: MusshView, tokens: Seq<Name>, i: int)
    requires
        0 <= i < resolved_hosts(cfg, tokens).len(),
    ensures
        cfg.hostlist.contains_key(resolved_hosts(cfg, tokens)[i].0),
        cfg.hosts.contains_key(resolved_hosts(cfg, tokens)[i].0),
        resolved_hosts(cfg, tokens)[i].1 == cfg.hosts[resolved_hosts(cfg, tokens)[i].0],
{
    let wanted = dedup(expansion(cfg, tokens)).filter(absent_from(dedup(exclusions(tokens))));
    let chosen = selected_names(cfg, tokens).filter(keyed_in(cfg.hosts));
    lemma_filter_items(wanted, keyed_in(cfg.hostlist));
    lemma_filter_items(selected_names(cfg, tokens), keyed_in(cfg.hosts));
    assert(chosen.contains(chosen[i]));
}

/// Every host of a plan is the name of a configured host list and has a
/// configured record, which is the record that the plan holds for it.
pub proof fn lemma_plan_hosts_configured(cfg: MusshView, req: RequestView, i: int)
    requires
        0 <= i < plan_of(cfg, req).len(),
    ensures
        cfg.hostlist.contains_key(plan_of(cfg, req)[i].hostname),
        cfg.hosts.contains_key(plan_of(cfg, req)[i].hostname),
        plan_of(cfg, req)[i].host == cfg.hosts[plan_of(cfg, req)[i].hostname],
{
    let first = resolved_hosts(cfg, req.hosts);
    let second = resolved_hosts(cfg, req.sync_hosts);
    let entry = planned_hosts(cfg, req)[i];
    lemma_merged_items(first, second, i);
    if first.contains(entry) {
        let j = choose|j: int| 0 <= j < first.len() && first[j] == entry;
        lemma_resolved_hosts_configured(cfg, req.hosts, j);
    } else {
        let j = choose|j: int| 0 <= j < second.len() && second[j] == entry;
        lemma_resolved_hosts_configured(cfg, req.sync_hosts, j);
    }
}

/// A session that is not logged in runs nothing: a login that was turned
/// down, whatever was said, and a login that the session does not confirm
/// both end the command with the error of a failed login; and the channel
/// is opened only once the session has confirmed the login.
pub proof fn lemma_login_decides(event: RemoteEvent, host: HostView, cmd_name: Name)
    ensures
        event matches RemoteEvent::AuthenticationTried(Err(_)) ==> remote_turn(
            event,
            host,
            cmd_name,
        ) == TurnView::<RemoteStep>::Finish(Err(ErrView::SshAuthentication)),
        event == RemoteEvent::AuthenticationChecked(false) ==> remote_turn(event, host, cmd_name)
            == TurnView::<RemoteStep>::Finish(Err(ErrView::SshAuthentication)),
        remote_turn(event, host, cmd_name) == TurnView::Do(RemoteStep::OpenChannel) ==> event
            == RemoteEvent::AuthenticationChecked(true),
{
}

/// A command that cannot be run on its channel ends with the error of a
/// command that could not be run: so where the channel cannot be opened,
/// where the command cannot be started, and where its status cannot be
/// read. The error says which command on which host.
pub proof fn lemma_exec_failures(event: RemoteEvent, host: HostView, cmd_name: Name)
    requires
        event matches RemoteEvent::ChannelOpened(Err(_)) || event matches RemoteEvent::ExecStarted(
            Err(_),
        ) || event matches RemoteEvent::ExitStatusRead { status: Err(_), .. },
    ensures
        remote_turn(event, host, cmd_name) == TurnView::<RemoteStep>::Finish(
            Err(ErrView::SshExec(failure_text(host.hostname, cmd_name))),
        ),
{
}

} // verus!
