//! Sequences of names: the mathematical side of the ordered sets.
use vstd::prelude::*;

verus! {

/// A name as contracts see it: the characters of a string.
pub type Name = Seq<char>;

/// The names that a list of strings holds, in order.
pub open spec fn names_of(items: Seq<String>) -> Seq<Name> {
    items.map_values(|s: String| s@)
}

/// `s` without its repeats: each item stays where it first occurs.
pub open spec fn dedup<A>(s: Seq<A>) -> Seq<A>
    decreases s.len(),
{
    if s.len() == 0 {
        s
    } else {
        let head = dedup(s.drop_last());
        if head.contains(s.last()) {
            head
        } else {
            head.push(s.last())
        }
    }
}

/// The test "is not among `excluded`".
pub open spec fn absent_from<A>(excluded: Seq<A>) -> spec_fn(A) -> bool {
    |x: A| !excluded.contains(x)
}

/// The test "is among `allowed`".
pub open spec fn present_in<A>(allowed: Seq<A>) -> spec_fn(A) -> bool {
    |x: A| allowed.contains(x)
}

/// What `dedup` keeps is exactly what `s` holds, once each.
pub proof fn lemma_dedup_items<A>(s: Seq<A>)
    ensures
        dedup(s).no_duplicates(),
        dedup(s).len() <= s.len(),
        forall|x: A|
            #![trigger dedup(s).contains(x)]
            #![trigger s.contains(x)]
            dedup(s).contains(x) <==> s.contains(x),
    decreases s.len(),
{
    if s.len() > 0 {
        let front = s.drop_last();
        let last = s.last();
        lemma_dedup_items(front);
        let head = dedup(front);
        assert forall|x: A| dedup(s).contains(x) <==> s.contains(x) by {
            if s.contains(x) {
                let i = choose|i: int| 0 <= i < s.len() && s[i] == x;
                if i < s.len() - 1 {
                    assert(front[i] == x);
                    assert(front.contains(x));
                    assert(head.contains(x));
                    let j = choose|j: int| 0 <= j < head.len() && head[j] == x;
                    assert(dedup(s)[j] == x);
                } else if !head.contains(x) {
                    assert(dedup(s)[head.len() as int] == x);
                } else {
                    let j = choose|j: int| 0 <= j < head.len() && head[j] == x;
                    assert(dedup(s)[j] == x);
                }
            }
            if dedup(s).contains(x) {
                let j = choose|j: int| 0 <= j < dedup(s).len() && dedup(s)[j] == x;
                if j < head.len() {
                    assert(head[j] == x);
                    assert(head.contains(x));
                    assert(front.contains(x));
                    let i = choose|i: int| 0 <= i < front.len() && front[i] == x;
                    assert(s[i] == x);
                } else {
                    assert(x == last);
                    assert(s[s.len() - 1] == x);
                }
            }
        }
    }
}

/// A sequence without repeats is its own `dedup`.
pub proof fn lemma_dedup_of_distinct<A>(s: Seq<A>)
    requires
        s.no_duplicates(),
    ensures
        dedup(s) == s,
    decreases s.len(),
{
    if s.len() > 0 {
        let front = s.drop_last();
        lemma_dedup_of_distinct(front);
        if front.contains(s.last()) {
            let i = choose|i: int| 0 <= i < front.len() && front[i] == s.last();
            assert(s[i] == s[s.len() - 1]);
        }
        assert(front.push(s.last()) =~= s);
    }
}

/// The value that the first entry under `key` holds, if there is one.
pub open spec fn lookup<K, V>(entries: Seq<(K, V)>, key: K) -> Option<V>
    decreases entries.len(),
{
    if entries.len() == 0 {
        None
    } else if entries[0].0 == key {
        Some(entries[0].1)
    } else {
        lookup(entries.drop_first(), key)
    }
}

/// The keys of `entries`, in order.
pub open spec fn keys_of<K, V>(entries: Seq<(K, V)>) -> Seq<K> {
    entries.map_values(|e: (K, V)| e.0)
}

/// `lookup` finds a key exactly when the table has it.
pub proof fn lemma_lookup_keys<K, V>(entries: Seq<(K, V)>, key: K)
    ensures
        lookup(entries, key) is Some <==> keys_of(entries).contains(key),
    decreases entries.len(),
{
    let keys = keys_of(entries);
    if entries.len() > 0 {
        let rest = entries.drop_first();
        lemma_lookup_keys(rest, key);
        assert(keys_of(rest) =~= keys.drop_first());
        if entries[0].0 == key {
            assert(keys[0] == key);
        } else {
            if keys.contains(key) {
                let i = choose|i: int| 0 <= i < keys.len() && keys[i] == key;
                assert(keys.drop_first()[i - 1] == key);
            }
            if keys.drop_first().contains(key) {
                let i = choose|i: int| 0 <= i < keys.drop_first().len() && keys.drop_first()[i] == key;
                assert(keys[i + 1] == key);
            }
        }
    }
}

/// Looking up in a table from its `i`-th entry on, where no earlier entry
/// has the key, is looking up in the whole table.
pub proof fn lemma_lookup_skip<K, V>(entries: Seq<(K, V)>, key: K, i: int)
    requires
        0 <= i <= entries.len(),
        forall|j: int| 0 <= j < i ==> entries[j].0 != key,
    ensures
        lookup(entries, key) == lookup(entries.subrange(i, entries.len() as int), key),
    decreases i,
{
    if i == 0 {
        assert(entries.subrange(0, entries.len() as int) =~= entries);
    } else {
        lemma_lookup_skip(entries, key, i - 1);
        let tail = entries.subrange(i - 1, entries.len() as int);
        assert(tail[0] == entries[i - 1]);
        assert(tail.drop_first() =~= entries.subrange(i, entries.len() as int));
    }
}

/// Replacing the first entry under `key` changes what `key` finds and
/// nothing else.
pub proof fn lemma_lookup_update<K, V>(
    entries: Seq<(K, V)>,
    i: int,
    key: K,
    value: V,
    other: K,
)
    requires
        0 <= i < entries.len(),
        entries[i].0 == key,
        forall|j: int| 0 <= j < i ==> entries[j].0 != key,
    ensures
        lookup(entries.update(i, (key, value)), other) == if other == key {
            Some(value)
        } else {
            lookup(entries, other)
        },
    decreases entries.len(),
{
    let updated = entries.update(i, (key, value));
    if i == 0 {
        assert(updated.drop_first() =~= entries.drop_first());
    } else {
        assert(updated[0] == entries[0]);
        assert(updated.drop_first() =~= entries.drop_first().update(i - 1, (key, value)));
        lemma_lookup_update(entries.drop_first(), i - 1, key, value, other);
    }
}

/// Appending an entry under a key that the table lacks changes what that
/// key finds and nothing else.
pub proof fn lemma_lookup_push<K, V>(entries: Seq<(K, V)>, key: K, value: V, other: K)
    requires
        forall|j: int| 0 <= j < entries.len() ==> entries[j].0 != key,
    ensures
        lookup(entries.push((key, value)), other) == if other == key {
            Some(value)
        } else {
            lookup(entries, other)
        },
    decreases entries.len(),
{
    let pushed = entries.push((key, value));
    if entries.len() == 0 {
        assert(pushed.drop_first() =~= entries);
    } else {
        assert(pushed[0] == entries[0]);
        assert(pushed.drop_first() =~= entries.drop_first().push((key, value)));
        lemma_lookup_push(entries.drop_first(), key, value, other);
    }
}

/// `entries` with `value` stored under `key`: in place of the value of the
/// entry under `key` where there is one, else as a new last entry.
pub open spec fn put<K, V>(entries: Seq<(K, V)>, key: K, value: V) -> Seq<(K, V)> {
    if keys_of(entries).contains(key) {
        entries.update(keys_of(entries).index_of(key), (key, value))
    } else {
        entries.push((key, value))
    }
}

/// The entries that come of storing `pairs` one after the other, starting
/// from nothing.
pub open spec fn collected<K, V>(pairs: Seq<(K, V)>) -> Seq<(K, V)>
    decreases pairs.len(),
{
    if pairs.len() == 0 {
        pairs
    } else {
        put(collected(pairs.drop_last()), pairs.last().0, pairs.last().1)
    }
}

/// Pairs under keys that all differ are stored as they come.
pub proof fn lemma_collected_distinct<K, V>(pairs: Seq<(K, V)>)
    requires
        keys_of(pairs).no_duplicates(),
    ensures
        collected(pairs) == pairs,
    decreases pairs.len(),
{
    if pairs.len() > 0 {
        let front = pairs.drop_last();
        let keys = keys_of(pairs);
        assert(keys_of(front) =~= keys.drop_last());
        lemma_collected_distinct(front);
        if keys_of(front).contains(pairs.last().0) {
            let i = choose|i: int| 0 <= i < front.len() && keys_of(front)[i] == pairs.last().0;
            assert(keys[i] == keys[pairs.len() - 1]);
        }
        assert(front.push(pairs.last()) =~= pairs);
    }
}

/// Two tests that agree on the items of `s` keep the same items of it.
pub proof fn lemma_filter_agree<A>(s: Seq<A>, p: spec_fn(A) -> bool, q: spec_fn(A) -> bool)
    requires
        forall|i: int| 0 <= i < s.len() ==> p(#[trigger] s[i]) == q(s[i]),
    ensures
        s.filter(p) == s.filter(q),
    decreases s.len(),
{
    reveal(Seq::filter);
    if s.len() > 0 {
        lemma_filter_agree(s.drop_last(), p, q);
    }
}

/// What a test keeps of `s` are items of `s` that pass it, and of a
/// sequence without repeats it keeps no item twice.
pub proof fn lemma_filter_items<A>(s: Seq<A>, p: spec_fn(A) -> bool)
    ensures
        forall|x: A| #[trigger] s.filter(p).contains(x) <==> s.contains(x) && p(x),
        s.no_duplicates() ==> s.filter(p).no_duplicates(),
    decreases s.len(),
{
    reveal(Seq::filter);
    if s.len() > 0 {
        let front = s.drop_last();
        let last = s.last();
        lemma_filter_items(front, p);
        let kept = front.filter(p);
        assert forall|x: A| #[trigger] s.filter(p).contains(x) <==> s.contains(x) && p(x) by {
            if s.filter(p).contains(x) {
                let j = choose|j: int| 0 <= j < s.filter(p).len() && s.filter(p)[j] == x;
                if j < kept.len() {
                    assert(kept[j] == x);
                    assert(kept.contains(x));
                    let i = choose|i: int| 0 <= i < front.len() && front[i] == x;
                    assert(s[i] == x);
                } else {
                    assert(s[s.len() - 1] == x);
                }
            }
            if s.contains(x) && p(x) {
                let i = choose|i: int| 0 <= i < s.len() && s[i] == x;
                if i < s.len() - 1 {
                    assert(front[i] == x);
                    assert(front.contains(x));
                    assert(kept.contains(x));
                    let j = choose|j: int| 0 <= j < kept.len() && kept[j] == x;
                    assert(s.filter(p)[j] == x);
                } else {
                    assert(s.filter(p)[kept.len() as int] == x);
                }
            }
        }
        if s.no_duplicates() {
            assert(front.no_duplicates());
            if p(last) && kept.contains(last) {
                assert(front.contains(last));
                let i = choose|i: int| 0 <= i < front.len() && front[i] == last;
                assert(s[i] == s[s.len() - 1]);
            }
        }
    }
}

/// What a test keeps of the first `i + 1` items of `s`: what it keeps of
/// the first `i`, and the next item after that if it passes.
pub proof fn lemma_filter_step<A>(s: Seq<A>, p: spec_fn(A) -> bool, i: int)
    requires
        0 <= i < s.len(),
    ensures
        s.take(i + 1).filter(p) == if p(s[i]) {
            s.take(i).filter(p).push(s[i])
        } else {
            s.take(i).filter(p)
        },
{
    reveal(Seq::filter);
    assert(s.take(i + 1).drop_last() =~= s.take(i));
}

/// Looking up among entries whose values were all changed in one way
/// finds the changed value of what was found before.
pub proof fn lemma_lookup_mapped<K, V, W>(entries: Seq<(K, V)>, f: spec_fn(V) -> W, key: K)
    ensures
        lookup(entries.map_values(|e: (K, V)| (e.0, f(e.1))), key) == match lookup(entries, key) {
            Some(value) => Some(f(value)),
            None => None,
        },
    decreases entries.len(),
{
    let changed = entries.map_values(|e: (K, V)| (e.0, f(e.1)));
    if entries.len() > 0 {
        lemma_lookup_mapped(entries.drop_first(), f, key);
        assert(changed.drop_first() =~= entries.drop_first().map_values(
            |e: (K, V)| (e.0, f(e.1)),
        ));
    }
}

} // verus!
