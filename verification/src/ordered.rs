//! Insertion-ordered sets and maps, kept by `indexmap`, and what they hold.
use vstd::prelude::*;
use indexmap::{IndexMap, IndexSet};
use crate::config::Host;
use crate::model::PlanEntry;
use crate::sequences::{
    absent_from, collected, dedup, keys_of, lookup, names_of, present_in, put, Name,
};
use crate::utils::CmdType;

verus! {

/// `indexmap::IndexSet`, taken as it is: of what is inside a set only the
/// functions below speak.
#[verifier::external_type_specification]
#[verifier::external_body]
#[verifier::reject_recursive_types(T)]
#[verifier::reject_recursive_types(S)]
pub struct ExIndexSet<T, S>(IndexSet<T, S>);

/// `indexmap::IndexMap`, taken as it is: of what is inside a map only the
/// functions below speak.
#[verifier::external_type_specification]
#[verifier::external_body]
#[verifier::reject_recursive_types(K)]
#[verifier::reject_recursive_types(V)]
#[verifier::reject_recursive_types(S)]
pub struct ExIndexMap<K, V, S>(IndexMap<K, V, S>);

/// The names that a set holds, in the order in which it walks them.
pub uninterp spec fn set_items(s: IndexSet<String>) -> Seq<Name>;

/// `IndexSet::new`: the set that holds nothing.
#[verifier::external_body]
pub(crate) fn set_new() -> (r: IndexSet<String>)
    ensures
        set_items(r) == Seq::<Name>::empty(),
{
    IndexSet::new()
}

/// `IndexSet::clone`: a set that holds the same names in the same order.
#[verifier::external_body]
pub(crate) fn set_clone(s: &IndexSet<String>) -> (r: IndexSet<String>)
    ensures
        set_items(r) == set_items(*s),
{
    s.clone()
}

/// `IndexSet::from_iter`: inserts the items one after the other. An item
/// that the set already holds is dropped and changes no position, so the
/// set holds each name once, where the list first has it.
#[verifier::external_body]
pub(crate) fn set_from_list(items: Vec<String>) -> (r: IndexSet<String>)
    ensures
        set_items(r) == dedup(names_of(items@)),
{
    IndexSet::from_iter(items)
}

/// `IndexSet::iter`: hands the items out in the set's order, each one a
/// copy here. A set holds no name twice.
#[verifier::external_body]
pub(crate) fn set_to_list(s: &IndexSet<String>) -> (r: Vec<String>)
    ensures
        names_of(r@) == set_items(*s),
        names_of(r@).no_duplicates(),
{
    s.iter().cloned().collect()
}

/// `IndexSet::contains`: whether the set holds a string equal to `name`.
#[verifier::external_body]
pub(crate) fn set_contains(s: &IndexSet<String>, name: &String) -> (r: bool)
    ensures
        r == set_items(*s).contains(name@),
{
    s.contains(name)
}

/// Whether `name` is not among `unwanted`.
pub fn is_wanted(unwanted: &IndexSet<String>, name: &String) -> (r: bool)
    ensures
        r == !set_items(*unwanted).contains(name@),
{
    !set_contains(unwanted, name)
}

/// `IndexSet::retain`: visits the items in order and keeps those for which
/// the closure answers yes; what stays keeps its order. The closure is
/// `is_wanted`, so the names among `unwanted` leave.
#[verifier::external_body]
pub(crate) fn set_retain_wanted(s: &mut IndexSet<String>, unwanted: &IndexSet<String>)
    ensures
        set_items(*final(s)) == set_items(*old(s)).filter(absent_from(set_items(*unwanted))),
{
    s.retain(|name| is_wanted(unwanted, name))
}

/// `IndexSet::intersection`: the items of `a` that `b` holds too, in the
/// order in which `a` holds them, each one a copy here.
#[verifier::external_body]
pub(crate) fn set_intersection(a: &IndexSet<String>, b: &IndexSet<String>) -> (r: Vec<String>)
    ensures
        names_of(r@) == set_items(*a).filter(present_in(set_items(*b))),
{
    a.intersection(b).cloned().collect()
}

/// The commands that a map holds, name and shell text, in the map's order.
pub uninterp spec fn command_entries(m: IndexMap<String, String>) -> Seq<(Name, Name)>;

/// The phases that a map holds, each with its commands, in the map's order.
pub uninterp spec fn phase_entries(m: IndexMap<CmdType, IndexMap<String, String>>) -> Seq<
    (CmdType, IndexMap<String, String>),
>;

/// The hosts that a plan holds, each with its record and its phases, in the
/// plan's order.
pub uninterp spec fn plan_entries(
    m: IndexMap<String, (Host, IndexMap<CmdType, IndexMap<String, String>>)>,
) -> Seq<(Name, (Host, IndexMap<CmdType, IndexMap<String, String>>))>;

/// Pairs of strings as contracts see them.
pub open spec fn pairs_of(items: Seq<(String, String)>) -> Seq<(Name, Name)> {
    items.map_values(|e: (String, String)| (e.0@, e.1@))
}

/// The entries of a plan as contracts see them: the key's characters, the
/// rest as it is.
pub open spec fn keyed<V>(items: Seq<(String, V)>) -> Seq<(Name, V)> {
    items.map_values(|e: (String, V)| (e.0@, e.1))
}

/// The phases of a host as contracts see them: each with its commands,
/// name and shell text.
pub open spec fn phase_view(m: IndexMap<CmdType, IndexMap<String, String>>) -> Seq<
    (CmdType, Seq<(Name, Name)>),
> {
    phase_entries(m).map_values(
        |e: (CmdType, IndexMap<String, String>)| (e.0, command_entries(e.1)),
    )
}

/// A plan as contracts see it: its hosts in order, each with its record and
/// its commands by phase.
pub open spec fn plan_view(
    m: IndexMap<String, (Host, IndexMap<CmdType, IndexMap<String, String>>)>,
) -> Seq<PlanEntry> {
    plan_entries(m).map_values(
        |e: (Name, (Host, IndexMap<CmdType, IndexMap<String, String>>))|
            PlanEntry { hostname: e.0, host: e.1.0@, phases: phase_view(e.1.1) },
    )
}

/// `IndexMap::from_iter`: inserts the pairs one after the other. A pair
/// under a name that the map has takes that entry's place and gives it its
/// text; any other pair goes in last.
#[verifier::external_body]
pub(crate) fn command_map_from(pairs: Vec<(String, String)>) -> (r: IndexMap<String, String>)
    ensures
        command_entries(r) == collected(pairs_of(pairs@)),
{
    IndexMap::from_iter(pairs)
}

/// `IndexMap::iter`: hands the entries out in the map's order, each one a
/// copy here. A map holds no name twice.
#[verifier::external_body]
pub(crate) fn command_map_to_list(m: &IndexMap<String, String>) -> (r: Vec<(String, String)>)
    ensures
        pairs_of(r@) == command_entries(*m),
        keys_of(pairs_of(r@)).no_duplicates(),
{
    m.iter().map(|(name, text)| (name.clone(), text.clone())).collect()
}

/// `IndexMap::new`: the map that holds nothing.
#[verifier::external_body]
pub(crate) fn phase_map_new() -> (r: IndexMap<CmdType, IndexMap<String, String>>)
    ensures
        phase_entries(r) == Seq::<(CmdType, IndexMap<String, String>)>::empty(),
{
    IndexMap::new()
}

/// `IndexMap::insert`: under a key that the map has, the value takes the
/// place of the one stored there; under any other key the entry goes in
/// last.
#[verifier::external_body]
pub(crate) fn phase_map_insert(
    m: &mut IndexMap<CmdType, IndexMap<String, String>>,
    kind: CmdType,
    commands: IndexMap<String, String>,
)
    ensures
        phase_entries(*final(m)) == put(phase_entries(*old(m)), kind, commands),
{
    m.insert(kind, commands);
}

/// `IndexMap::get`: the value stored under `kind`, if the map has that key.
/// A map holds a key once, so the first entry of `kind` is the only one.
#[verifier::external_body]
pub(crate) fn phase_map_get(
    m: &IndexMap<CmdType, IndexMap<String, String>>,
    kind: CmdType,
) -> (r: Option<&IndexMap<String, String>>)
    ensures
        match r {
            Some(commands) => lookup(phase_entries(*m), kind) == Some(*commands),
            None => lookup(phase_entries(*m), kind) is None,
        },
{
    m.get(&kind)
}

/// `IndexMap::new`: the plan that holds nothing.
#[verifier::external_body]
pub(crate) fn plan_new() -> (r: IndexMap<
    String,
    (Host, IndexMap<CmdType, IndexMap<String, String>>),
>)
    ensures
        plan_entries(r) == Seq::<(Name, (Host, IndexMap<CmdType, IndexMap<String, String>>))>::empty(),
{
    IndexMap::new()
}

/// `IndexMap::entry` and `Entry::or_insert`: under a key that the plan
/// holds nothing changes; under any other key the entry goes in last.
#[verifier::external_body]
pub(crate) fn plan_insert_absent(
    m: &mut IndexMap<String, (Host, IndexMap<CmdType, IndexMap<String, String>>)>,
    hostname: String,
    entry: (Host, IndexMap<CmdType, IndexMap<String, String>>),
)
    ensures
        plan_entries(*final(m)) == if keys_of(plan_entries(*old(m))).contains(hostname@) {
            plan_entries(*old(m))
        } else {
            plan_entries(*old(m)).push((hostname@, entry))
        },
{
    m.entry(hostname).or_insert(entry);
}

/// `IndexMap::into_iter`: hands the entries out in the plan's order. A plan
/// holds no host twice.
#[verifier::external_body]
pub(crate) fn plan_into_list(
    m: IndexMap<String, (Host, IndexMap<CmdType, IndexMap<String, String>>)>,
) -> (r: Vec<(String, (Host, IndexMap<CmdType, IndexMap<String, String>>))>)
    ensures
        keyed(r@) == plan_entries(m),
        keys_of(keyed(r@)).no_duplicates(),
{
    m.into_iter().collect()
}

} // verus!
