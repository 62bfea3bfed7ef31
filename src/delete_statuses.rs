//! Picks the cached posts that are old enough to delete, and prunes the cache
//! by what the platform confirmed deleted.
use vstd::prelude::*;
use vstd::std_specs::btree::increasing_seq;
use vstd::std_specs::iter::IteratorSpec;
use vstd::std_specs::cmp::OrdSpec;
use std::collections::BTreeMap;
use crate::cache::{pruned, remove_dates_from_cache, CacheUpdate, Timestamp};

verus! {

broadcast use vstd::std_specs::btree::group_btree_axioms;

/// The cached posts created before `cutoff`, oldest first.
pub fn select_older(cached_dates: &BTreeMap<Timestamp, u64>, cutoff: Timestamp) -> (r: Vec<
    (Timestamp, u64),
>)
    ensures
        forall|i: int|
            0 <= i < r.len() ==> #[trigger] r@[i].0 < cutoff && cached_dates@.contains_key(r@[i].0)
                && cached_dates@[r@[i].0] == r@[i].1,
        forall|k: Timestamp|
            #[trigger] cached_dates@.contains_key(k) && k < cutoff ==> exists|i: int|
                0 <= i < r.len() && #[trigger] r@[i].0 == k,
        forall|i: int, j: int| 0 <= i < j < r.len() ==> r@[i].0 < r@[j].0,
{
    let ghost entries = cached_dates.iter().remaining();
    let ghost pairs = entries.map_values(|kv: (&Timestamp, &u64)| (*kv.0, *kv.1));
    let mut all: Vec<(Timestamp, u64)> = Vec::new();
    for kv in it: cached_dates.iter()
        invariant
            it.seq() == entries,
            pairs == entries.map_values(|kv: (&Timestamp, &u64)| (*kv.0, *kv.1)),
            all@ == pairs.take(it.index()),
    {
        all.push((*kv.0, *kv.1));
        assert(all@ =~= pairs.take(it.index() + 1));
    }
    proof {
        assert(all@ =~= pairs);
        let keys = entries.map_values(|kv: (&Timestamp, &u64)| *kv.0);
        assert(increasing_seq(keys));
        assert forall|a: int, b: int| 0 <= a < b < all.len() implies all@[a].0 < all@[b].0 by {
            assert(keys[a].cmp_spec(&keys[b]) is Less);
        }
        assert forall|j: int| 0 <= j < all.len() implies cached_dates@.contains_key(#[trigger] all@[j].0)
            && cached_dates@[all@[j].0] == all@[j].1 by {
            assert(all@[j].0 == *entries[j].0);
        }
    }
    // The map hands out its keys in ascending order, so the entries before the
    // cutoff are a prefix of `all`.
    let mut r: Vec<(Timestamp, u64)> = Vec::new();
    let mut p: usize = 0;
    while p < all.len() && all[p].0 < cutoff
        invariant
            p <= all.len(),
            r@ == all@.take(p as int),
            forall|i: int| 0 <= i < p ==> #[trigger] all@[i].0 < cutoff,
        decreases all.len() - p,
    {
        r.push(all[p]);
        assert(r@ =~= all@.take(p + 1));
        p = p + 1;
    }
    proof {
        assert forall|k: Timestamp| #[trigger] cached_dates@.contains_key(k) && k < cutoff implies exists|i: int|
            0 <= i < r.len() && #[trigger] r@[i].0 == k by {
            assert(entries.contains((&k, &cached_dates@[k])));
            let j = choose|j: int| 0 <= j < entries.len() && entries[j] == (&k, &cached_dates@[k]);
            assert(all@[j].0 == k);
            if j > p {
                assert(all@[p as int].0 < all@[j].0);
            }
            assert(r@[j].0 == k);
        }
    }
    r
}

/// The creation times of the selected posts whose deletion the platform
/// confirmed, in the order they were selected.
pub open spec fn confirmed(selected: Seq<(Timestamp, u64)>, deleted: Seq<bool>) -> Seq<Timestamp>
    decreases selected.len(),
{
    if selected.len() == 0 || deleted.len() == 0 {
        Seq::empty()
    } else {
        let rest = confirmed(selected.drop_last(), deleted.drop_last());
        if deleted.last() {
            rest.push(selected.last().0)
        } else {
            rest
        }
    }
}

/// The creation times of the posts in `selected` whose delete call succeeded
/// (`deleted[i]` tells the outcome for `selected[i]`).
pub fn dates_to_remove(selected: &Vec<(Timestamp, u64)>, deleted: &Vec<bool>) -> (r: Vec<Timestamp>)
    requires
        deleted.len() == selected.len(),
    ensures
        r@ == confirmed(selected@, deleted@),
{
    let mut r: Vec<Timestamp> = Vec::new();
    let mut i: usize = 0;
    while i < selected.len()
        invariant
            i <= selected.len(),
            deleted.len() == selected.len(),
            r@ == confirmed(selected@.take(i as int), deleted@.take(i as int)),
        decreases selected.len() - i,
    {
        assert(selected@.take(i + 1).drop_last() =~= selected@.take(i as int));
        assert(deleted@.take(i + 1).drop_last() =~= deleted@.take(i as int));
        if deleted[i] {
            r.push(selected[i].0);
        }
        i = i + 1;
    }
    assert(selected@.take(i as int) =~= selected@);
    assert(deleted@.take(i as int) =~= deleted@);
    r
}

/// Prunes the cache of the posts whose deletion the platform confirmed and
/// says what becomes of the cache file; a post whose delete call failed stays
/// cached, to be tried again on the next run.
pub fn prune_deleted(
    cached_dates: &BTreeMap<Timestamp, u64>,
    selected: &Vec<(Timestamp, u64)>,
    deleted: &Vec<bool>,
) -> (r: CacheUpdate)
    requires
        deleted.len() == selected.len(),
    ensures
        confirmed(selected@, deleted@).len() == 0 <==> r is Unchanged,
        r is RemoveFile <==> confirmed(selected@, deleted@).len() > 0 && pruned(
            cached_dates@,
            confirmed(selected@, deleted@),
        ).is_empty(),
        r matches CacheUpdate::Write(m) ==> m@ == pruned(cached_dates@, confirmed(selected@, deleted@))
            && !m@.is_empty(),
{
    let removed = dates_to_remove(selected, deleted);
    remove_dates_from_cache(&removed, cached_dates)
}

proof fn lemma_confirmed_contains(selected: Seq<(Timestamp, u64)>, deleted: Seq<bool>, k: Timestamp)
    requires
        deleted.len() == selected.len(),
    ensures
        confirmed(selected, deleted).contains(k) <==> exists|i: int|
            0 <= i < selected.len() && #[trigger] selected[i].0 == k && deleted[i],
    decreases selected.len(),
{
    if selected.len() > 0 {
        let (s0, d0) = (selected.drop_last(), deleted.drop_last());
        lemma_confirmed_contains(s0, d0, k);
        let rest = confirmed(s0, d0);
        let n = selected.len() - 1;
        if confirmed(selected, deleted).contains(k) {
            if rest.contains(k) {
                let i = choose|i: int| 0 <= i < s0.len() && #[trigger] s0[i].0 == k && d0[i];
                assert(selected[i].0 == k && deleted[i]);
            } else {
                assert(deleted.last());
                assert(rest.push(selected.last().0)[rest.len() as int] == selected.last().0);
                if selected.last().0 != k {
                    let j = choose|j: int| 0 <= j < rest.push(selected.last().0).len()
                        && rest.push(selected.last().0)[j] == k;
                    assert(rest[j] == k);
                }
                assert(selected[n].0 == k && deleted[n]);
            }
        } else {
            assert forall|i: int| 0 <= i < selected.len() && #[trigger] selected[i].0 == k implies !deleted[i] by {
                if i < n {
                    assert(s0[i] == selected[i] && d0[i] == deleted[i]);
                    if deleted[i] {
                        assert(rest.contains(k));
                        let j = choose|j: int| 0 <= j < rest.len() && rest[j] == k;
                        assert(rest.push(selected.last().0)[j] == k);
                    }
                } else if deleted[i] {
                    assert(rest.push(selected.last().0)[rest.len() as int] == k);
                }
            }
        }
    }
}

/// A cached post leaves the cache exactly when it was selected and its delete
/// call reported success.
pub proof fn lemma_deletion_safety(
    cached_dates: Map<Timestamp, u64>,
    selected: Seq<(Timestamp, u64)>,
    deleted: Seq<bool>,
    k: Timestamp,
)
    requires
        deleted.len() == selected.len(),
        cached_dates.contains_key(k),
    ensures
        !pruned(cached_dates, confirmed(selected, deleted)).contains_key(k) <==> exists|i: int|
            0 <= i < selected.len() && #[trigger] selected[i].0 == k && deleted[i],
{
    lemma_confirmed_contains(selected, deleted, k);
    assert(confirmed(selected, deleted).to_set().contains(k) == confirmed(selected, deleted).contains(k));
}

} // verus!
