//! Lists of entries under text keys, and the maps they stand for.

use vstd::prelude::*;

verus! {

/// The entries of a keyed list as pairs of plain values, in the order held.
pub open spec fn pairs_of<V: View>(entries: Seq<(String, V)>) -> Seq<(Seq<char>, V::V)> {
    entries.map_values(|entry: (String, V)| (entry.0@, entry.1@))
}

/// No key stands in two places of `pairs`.
pub open spec fn distinct_keys<W>(pairs: Seq<(Seq<char>, W)>) -> bool {
    forall|i: int, j: int|
        0 <= i < pairs.len() && 0 <= j < pairs.len() && i != j ==> (#[trigger] pairs[i]).0 != (
        #[trigger] pairs[j]).0
}

/// The map that a list of pairs stands for. Where a key comes twice, the
/// later pair counts.
pub open spec fn map_of<W>(pairs: Seq<(Seq<char>, W)>) -> Map<Seq<char>, W>
    decreases pairs.len(),
{
    if pairs.len() == 0 {
        Map::empty()
    } else {
        map_of(pairs.drop_last()).insert(pairs.last().0, pairs.last().1)
    }
}

/// The keys of the map are the keys of the pairs; where no key comes
/// twice, each pair's value is the value under its key.
pub(crate) proof fn lemma_map_of<W>(pairs: Seq<(Seq<char>, W)>)
    ensures
        forall|i: int| 0 <= i < pairs.len() ==> map_of(pairs).contains_key((#[trigger] pairs[i]).0),
        forall|key: Seq<char>|
            #![trigger map_of(pairs).contains_key(key)]
            map_of(pairs).contains_key(key) ==> exists|i: int|
                0 <= i < pairs.len() && (#[trigger] pairs[i]).0 == key,
        distinct_keys(pairs) ==> forall|i: int|
            0 <= i < pairs.len() ==> map_of(pairs)[(#[trigger] pairs[i]).0] == pairs[i].1,
    decreases pairs.len(),
{
    if pairs.len() > 0 {
        let before = pairs.drop_last();
        let last = pairs.len() - 1;
        lemma_map_of(before);
        assert forall|i: int| 0 <= i < pairs.len() implies map_of(pairs).contains_key(
            (#[trigger] pairs[i]).0,
        ) by {
            if i < last {
                assert(before[i] == pairs[i]);
            }
        }
        assert forall|key: Seq<char>|
            #![trigger map_of(pairs).contains_key(key)]
            map_of(pairs).contains_key(key) implies exists|i: int|
            0 <= i < pairs.len() && (#[trigger] pairs[i]).0 == key by {}
        if distinct_keys(pairs) {
            assert forall|i: int| 0 <= i < pairs.len() implies map_of(pairs)[(
            #[trigger] pairs[i]).0] == pairs[i].1 by {
                if i < last {
                    assert(before[i] == pairs[i]);
                }
            }
        }
    }
}

/// A pair put at the end is a pair inserted into the map.
pub(crate) proof fn lemma_map_of_push<W>(pairs: Seq<(Seq<char>, W)>, key: Seq<char>, value: W)
    ensures
        map_of(pairs.push((key, value))) == map_of(pairs).insert(key, value),
{
    assert(pairs.push((key, value)).drop_last() =~= pairs);
}

/// Where no key comes twice, a new value in the place of a pair is that
/// value inserted under the pair's key.
pub(crate) proof fn lemma_map_of_update<W>(pairs: Seq<(Seq<char>, W)>, at: int, value: W)
    requires
        distinct_keys(pairs),
        0 <= at < pairs.len(),
    ensures
        distinct_keys(pairs.update(at, (pairs[at].0, value))),
        map_of(pairs.update(at, (pairs[at].0, value))) == map_of(pairs).insert(pairs[at].0, value),
{
    let key = pairs[at].0;
    let changed = pairs.update(at, (key, value));
    lemma_map_of(pairs);
    lemma_map_of(changed);
    let want = map_of(pairs).insert(key, value);
    assert forall|k: Seq<char>| map_of(changed).contains_key(k) <==> want.contains_key(k) by {
        if want.contains_key(k) {
            if k == key {
                assert(changed[at].0 == k);
            } else {
                let i = choose|i: int| 0 <= i < pairs.len() && (#[trigger] pairs[i]).0 == k;
                assert(changed[i].0 == k);
            }
        }
    }
}

/// The pair at `at` is the last with its key.
pub open spec fn is_last_with_key<W>(pairs: Seq<(Seq<char>, W)>, at: int) -> bool {
    &&& 0 <= at < pairs.len()
    &&& forall|j: int| at < j < pairs.len() ==> (#[trigger] pairs[j]).0 != pairs[at].0
}

/// The value under a key is the value of the last pair with that key.
pub(crate) proof fn lemma_last_counts<W>(pairs: Seq<(Seq<char>, W)>, at: int)
    requires
        is_last_with_key(pairs, at),
    ensures
        map_of(pairs).contains_key(pairs[at].0),
        map_of(pairs)[pairs[at].0] == pairs[at].1,
    decreases pairs.len(),
{
    if at < pairs.len() - 1 {
        let before = pairs.drop_last();
        lemma_last_counts(before, at);
    }
}

/// A new value in the place of the last pair with a key is that value
/// inserted under the key.
pub(crate) proof fn lemma_replace_last<W>(pairs: Seq<(Seq<char>, W)>, at: int, value: W)
    requires
        is_last_with_key(pairs, at),
    ensures
        is_last_with_key(pairs.update(at, (pairs[at].0, value)), at),
        map_of(pairs.update(at, (pairs[at].0, value))) == map_of(pairs).insert(pairs[at].0, value),
    decreases pairs.len(),
{
    let key = pairs[at].0;
    let changed = pairs.update(at, (key, value));
    if at == pairs.len() - 1 {
        assert(changed.drop_last() =~= pairs.drop_last());
    } else {
        let before = pairs.drop_last();
        lemma_replace_last(before, at, value);
        assert(changed.drop_last() =~= before.update(at, (key, value)));
    }
}

/// The place of `key` among `entries`.
pub(crate) fn position_of<V>(entries: &Vec<(String, V)>, key: &String) -> (at: Option<usize>)
    ensures
        match at {
            Some(i) => i < entries@.len() && entries@[i as int].0@ == key@,
            None => forall|j: int| 0 <= j < entries@.len() ==> entries@[j].0@ != key@,
        },
{
    let mut i: usize = 0;
    while i < entries.len()
        invariant
            i <= entries@.len(),
            forall|j: int| 0 <= j < i ==> entries@[j].0@ != key@,
        decreases entries@.len() - i,
    {
        if entries[i].0 == *key {
            return Some(i);
        }
        i += 1;
    }
    None
}

/// Stores `value` under `key`, in place of what was stored under it.
pub(crate) fn put<V: View>(entries: &mut Vec<(String, V)>, key: String, value: V)
    requires
        distinct_keys(pairs_of(old(entries)@)),
    ensures
        distinct_keys(pairs_of(final(entries)@)),
        map_of(pairs_of(final(entries)@)) == map_of(pairs_of(old(entries)@)).insert(
            key@,
            value@,
        ),
{
    let ghost before = pairs_of(entries@);
    match position_of(entries, &key) {
        Some(at) => {
            proof {
                lemma_map_of_update(before, at as int, value@);
            }
            entries.set(at, (key, value));
            assert(pairs_of(entries@) =~= before.update(at as int, (before[at as int].0, value@)));
        },
        None => {
            proof {
                lemma_map_of_push(before, key@, value@);
            }
            entries.push((key, value));
            assert(pairs_of(entries@) =~= before.push((key@, value@)));
        },
    }
}

} // verus!
