//! Keyed tallies as mathematical maps: what a list of entries amounts to,
//! and how two maps of tallies are merged.

use vstd::prelude::*;

verus! {

/// The map that holds each entry of `items` under its key. Where a key
/// occurs twice, the earlier entry wins.
pub open spec fn listed<K, V>(items: Seq<(K, V)>) -> Map<K, V>
    decreases items.len(),
{
    if items.len() == 0 {
        Map::empty()
    } else {
        listed(items.drop_first()).insert(items.first().0, items.first().1)
    }
}

/// Whether `items` lists `entries`: every item is an entry, no key is listed
/// twice, and every entry is listed.
pub open spec fn is_listing<K, V>(items: Seq<(K, V)>, entries: Map<K, V>) -> bool {
    &&& forall|i: int|
        0 <= i < items.len() ==> entries.contains_key(#[trigger] items[i].0) && entries[items[i].0]
            == items[i].1
    &&& forall|i: int, j: int|
        0 <= i < j < items.len() ==> (#[trigger] items[i]).0 != (#[trigger] items[j]).0
    &&& forall|k: K|
        entries.contains_key(k) ==> exists|i: int| 0 <= i < items.len() && #[trigger] items[i].0 == k
}

/// The keys of `listed(items)` are the keys of the items.
pub proof fn lemma_listed_keys<K, V>(items: Seq<(K, V)>, k: K)
    ensures
        listed(items).contains_key(k) <==> exists|i: int|
            0 <= i < items.len() && #[trigger] items[i].0 == k,
    decreases items.len(),
{
    if items.len() > 0 {
        let rest = items.drop_first();
        lemma_listed_keys(rest, k);
        if listed(items).contains_key(k) {
            if items.first().0 == k {
                assert(items[0].0 == k);
            } else {
                let i = choose|i: int| 0 <= i < rest.len() && #[trigger] rest[i].0 == k;
                assert(items[i + 1].0 == k);
            }
        }
        if exists|i: int| 0 <= i < items.len() && #[trigger] items[i].0 == k {
            let i = choose|i: int| 0 <= i < items.len() && #[trigger] items[i].0 == k;
            if i > 0 {
                assert(rest[i - 1].0 == k);
            }
        }
    }
}

/// Where no key is listed twice, `listed(items)` holds every item.
pub proof fn lemma_listed_values<K, V>(items: Seq<(K, V)>, n: int)
    requires
        0 <= n < items.len(),
        forall|i: int, j: int|
            0 <= i < j < items.len() ==> (#[trigger] items[i]).0 != (#[trigger] items[j]).0,
    ensures
        listed(items).contains_key(items[n].0),
        listed(items)[items[n].0] == items[n].1,
    decreases items.len(),
{
    if n > 0 {
        let rest = items.drop_first();
        assert forall|i: int, j: int| 0 <= i < j < rest.len() implies (#[trigger] rest[i]).0 != (
        #[trigger] rest[j]).0 by {
            assert(rest[i] == items[i + 1]);
            assert(rest[j] == items[j + 1]);
        }
        lemma_listed_values(rest, n - 1);
        assert(rest[n - 1] == items[n]);
        assert(items[0].0 != items[n].0);
    }
}

/// A listing of a map amounts to that map.
pub proof fn lemma_listing_is_listed<K, V>(items: Seq<(K, V)>, entries: Map<K, V>)
    requires
        is_listing(items, entries),
    ensures
        listed(items) == entries,
{
    assert forall|k: K| listed(items).contains_key(k) <==> entries.contains_key(k) by {
        lemma_listed_keys(items, k);
        if listed(items).contains_key(k) {
            let i = choose|i: int| 0 <= i < items.len() && #[trigger] items[i].0 == k;
            assert(entries.contains_key(items[i].0));
        }
    }
    assert forall|k: K| listed(items).contains_key(k) implies listed(items)[k] == entries[k] by {
        lemma_listed_keys(items, k);
        let i = choose|i: int| 0 <= i < items.len() && #[trigger] items[i].0 == k;
        lemma_listed_values(items, i);
        assert(entries[items[i].0] == items[i].1);
    }
    assert(listed(items) =~= entries);
}

/// In a listing, an item's key is not among the items that follow it.
pub proof fn lemma_listed_later<K, V>(items: Seq<(K, V)>, entries: Map<K, V>, n: int)
    requires
        is_listing(items, entries),
        0 <= n < items.len(),
    ensures
        !listed(items.skip(n + 1)).contains_key(items[n].0),
        listed(items.skip(n)) == listed(items.skip(n + 1)).insert(items[n].0, items[n].1),
{
    let later = items.skip(n + 1);
    lemma_listed_keys(later, items[n].0);
    if listed(later).contains_key(items[n].0) {
        let i = choose|i: int| 0 <= i < later.len() && #[trigger] later[i].0 == items[n].0;
        assert(later[i] == items[n + 1 + i]);
        assert(items[n].0 != items[n + 1 + i].0);
    }
    assert(items.skip(n).drop_first() == later);
    assert(items.skip(n).first() == items[n]);
}

/// A tally that can take in a later tally of the same key.
pub trait Tally: Sized {
    /// This tally after `later` was added to it.
    spec fn combined(self, later: Self) -> Self;
}

/// The merge of two maps of tallies: the entries of both, and for a key of
/// both, the entry of `ours` combined with that of `theirs`.
pub open spec fn merged<K, V: Tally>(ours: Map<K, V>, theirs: Map<K, V>) -> Map<K, V> {
    Map::new(
        |k: K| ours.contains_key(k) || theirs.contains_key(k),
        |k: K|
            if theirs.contains_key(k) {
                if ours.contains_key(k) {
                    ours[k].combined(theirs[k])
                } else {
                    theirs[k]
                }
            } else {
                ours[k]
            },
    )
}

/// Merging nothing changes nothing.
pub proof fn lemma_merged_empty<K, V: Tally>(ours: Map<K, V>)
    ensures
        merged(ours, Map::empty()) == ours,
{
    assert(merged(ours, Map::empty()) =~= ours);
}

/// Merging one entry more, under a key that was not merged yet, changes the
/// entry of that key alone: it is inserted, or combined with ours.
pub proof fn lemma_merged_insert<K, V: Tally>(ours: Map<K, V>, theirs: Map<K, V>, k: K, v: V)
    requires
        !theirs.contains_key(k),
    ensures
        merged(ours, theirs.insert(k, v)) == merged(ours, theirs).insert(
            k,
            if ours.contains_key(k) {
                ours[k].combined(v)
            } else {
                v
            },
        ),
        merged(ours, theirs).contains_key(k) <==> ours.contains_key(k),
        ours.contains_key(k) ==> merged(ours, theirs)[k] == ours[k],
{
    assert(merged(ours, theirs.insert(k, v)) =~= merged(ours, theirs).insert(
        k,
        if ours.contains_key(k) {
            ours[k].combined(v)
        } else {
            v
        },
    ));
}

} // verus!
