//! What holds of the store: the oldest sessions leave it with what was
//! kept for them, what is missing is passed over, and what was deleted is
//! counted no more.

use crate::activity_cache::access_order::{
    capped, lemma_without_lacks, moved_to_tail, surplus, surplus_of, without,
};
use crate::activity_cache::model::ActivityCacheConfig;
use crate::activity_cache::store::{
    activities_at, activities_listed, bytes_at, bytes_listed, deleted, saved, BlobView,
    StoreState,
};
use vstd::prelude::*;

verus! {

/// A store with the setup `config` in which nothing is kept or listed.
pub open spec fn empty_store(config: ActivityCacheConfig) -> StoreState {
    StoreState { order: Seq::empty(), config, blobs: Map::empty() }
}

/// The store after the blobs `blobs` were saved one after the other, each
/// under the id that `ids` has at its place.
pub open spec fn saved_all(store: StoreState, ids: Seq<Seq<char>>, blobs: Seq<BlobView>) -> StoreState
    decreases ids.len(),
{
    if ids.len() == 0 {
        store
    } else {
        saved(saved_all(store, ids.drop_last(), blobs.drop_last()), ids.last(), blobs.last())
    }
}

/// In `store` the last `max` of the sessions `ids` are listed, in their
/// order, each with the blob that `blobs` has at its place, and nothing
/// else is kept.
pub open spec fn holds_the_last(store: StoreState, ids: Seq<Seq<char>>, blobs: Seq<BlobView>) -> bool {
    let max = store.config.max_sessions as nat;
    let k = surplus(ids.len(), max) as int;
    &&& store.order == capped(ids, max)
    &&& forall|i: int| 0 <= i < k ==> !store.blobs.dom().contains(#[trigger] ids[i])
    &&& forall|i: int|
        k <= i < ids.len() ==> store.blobs.dom().contains(#[trigger] ids[i]) && store.blobs[ids[i]]
            == blobs[i]
    &&& forall|id: Seq<char>| #[trigger] store.blobs.dom().contains(id) ==> ids.contains(id)
}

/// Saving for one more session, which is none of `ids`, keeps the store
/// holding the last sessions.
proof fn lemma_save_one_more(
    store: StoreState,
    ids: Seq<Seq<char>>,
    blobs: Seq<BlobView>,
    x: Seq<char>,
    blob: BlobView,
)
    requires
        holds_the_last(store, ids, blobs),
        ids.len() == blobs.len(),
        ids.no_duplicates(),
        !ids.contains(x),
    ensures
        holds_the_last(saved(store, x, blob), ids.push(x), blobs.push(blob)),
{
    let max = store.config.max_sessions as nat;
    let cut = surplus(ids.len(), max) as int;
    let t = store.order;
    assert(t =~= ids.skip(cut));
    if t.contains(x) {
        let i = choose|i: int| 0 <= i < t.len() && t[i] == x;
        assert(ids[i + cut] == x);
    }
    lemma_without_lacks(t, x);
    let moved = t.push(x);
    assert(moved == moved_to_tail(t, x));
    let c = surplus(moved.len(), max) as int;
    let gone = surplus_of(moved, max);
    let after = saved(store, x, blob);
    let all = ids.push(x);
    let all_blobs = blobs.push(blob);
    let k = surplus(all.len(), max) as int;
    assert(k == cut + c);
    assert(after.order =~= capped(all, max));
    assert(gone =~= all.subrange(cut, k));
    assert forall|id: Seq<char>| gone.to_set().contains(id) <==> (exists|i: int|
        cut <= i < k && all[i] == id) by {
        if gone.contains(id) {
            let j = choose|j: int| 0 <= j < gone.len() && gone[j] == id;
            assert(all[j + cut] == id);
        }
        if exists|i: int| cut <= i < k && all[i] == id {
            let i = choose|i: int| cut <= i < k && all[i] == id;
            assert(gone[i - cut] == id);
        }
    }
    assert forall|i: int| 0 <= i < k implies !after.blobs.dom().contains(#[trigger] all[i]) by {
        if i < cut {
            assert(all[i] == ids[i]);
            assert(ids.contains(ids[i]));
        } else {
            assert(gone.to_set().contains(all[i]));
        }
    }
    assert forall|i: int| k <= i < all.len() implies after.blobs.dom().contains(#[trigger] all[i])
        && after.blobs[all[i]] == all_blobs[i] by {
        assert(!gone.to_set().contains(all[i])) by {
            if exists|j: int| cut <= j < k && all[j] == all[i] {
                let j = choose|j: int| cut <= j < k && all[j] == all[i];
                lemma_no_repeat(ids, x, j, i);
            }
        }
        if i < ids.len() {
            assert(all[i] == ids[i]);
            assert(ids.contains(ids[i]));
            assert(all_blobs[i] == blobs[i]);
        }
    }
    assert forall|id: Seq<char>| #[trigger] after.blobs.dom().contains(id) implies all.contains(
        id,
    ) by {
        if id == x {
            assert(all[all.len() - 1] == x);
        } else {
            assert(ids.contains(id));
            let j = choose|j: int| 0 <= j < ids.len() && ids[j] == id;
            assert(all[j] == id);
        }
    }
}

/// A list in which nothing stands twice, with one more entry that it does
/// not hold, has different entries at different places.
proof fn lemma_no_repeat(ids: Seq<Seq<char>>, x: Seq<char>, i: int, j: int)
    requires
        ids.no_duplicates(),
        !ids.contains(x),
        0 <= i < j <= ids.len(),
    ensures
        ids.push(x)[i] != ids.push(x)[j],
{
    if j == ids.len() {
        assert(ids.contains(ids[i]));
    }
}

/// **First in, first out, with what is kept.** When a blob is saved for
/// each of `max + k` sessions that are all different, one after the other
/// in a store that starts empty with a limit of `max`, the store then lists
/// the last `max` sessions in their order and keeps for each of them the
/// blob that was saved for it; for the `k` sessions before those nothing is
/// kept any more, nor for any other session.
pub proof fn lemma_store_first_in_first_out(
    config: ActivityCacheConfig,
    ids: Seq<Seq<char>>,
    blobs: Seq<BlobView>,
)
    requires
        ids.no_duplicates(),
        blobs.len() == ids.len(),
    ensures
        saved_all(empty_store(config), ids, blobs).config == config,
        holds_the_last(saved_all(empty_store(config), ids, blobs), ids, blobs),
        ids.len() >= config.max_sessions ==> saved_all(empty_store(config), ids, blobs).order.len()
            == config.max_sessions,
    decreases ids.len(),
{
    let max = config.max_sessions as nat;
    if ids.len() == 0 {
        assert(capped(ids, max) =~= Seq::<Seq<char>>::empty());
    } else {
        let front = ids.drop_last();
        let x = ids.last();
        let prev = saved_all(empty_store(config), front, blobs.drop_last());
        assert forall|i: int, j: int| 0 <= i < front.len() && 0 <= j < front.len() && i != j implies front[i]
            != front[j] by {
            assert(front[i] == ids[i] && front[j] == ids[j]);
        }
        lemma_store_first_in_first_out(config, front, blobs.drop_last());
        if front.contains(x) {
            let i = choose|i: int| 0 <= i < front.len() && front[i] == x;
            assert(ids[i] == ids[ids.len() - 1]);
        }
        lemma_save_one_more(prev, front, blobs.drop_last(), x, blobs.last());
        assert(front.push(x) =~= ids);
        assert(blobs.drop_last().push(blobs.last()) =~= blobs);
    }
}

/// **What is missing is passed over.** Where what was kept for a listed
/// session is gone, the session still counts as one, and the activities
/// and bytes of the store are those of the other listed sessions.
pub proof fn lemma_missing_blob_is_passed_over(store: StoreState, id: Seq<char>)
    ensures
        activities_listed(store.order, store.blobs.remove(id)) == activities_listed(
            without(store.order, id),
            store.blobs,
        ),
        bytes_listed(store.order, store.blobs.remove(id)) == bytes_listed(
            without(store.order, id),
            store.blobs,
        ),
    decreases store.order.len(),
{
    if store.order.len() > 0 {
        let front = StoreState { order: store.order.drop_last(), ..store };
        lemma_missing_blob_is_passed_over(front, id);
        let last = store.order.last();
        if last != id {
            assert(without(store.order, id).drop_last() =~= without(front.order, id));
        }
    }
}

/// **What cannot be read is passed over.** Where what is kept for a listed
/// session cannot be read as a record, the session still counts as one,
/// and the activities and bytes of the store are those of the other listed
/// sessions, in full.
pub proof fn lemma_unreadable_blob_is_passed_over(store: StoreState, id: Seq<char>)
    requires
        store.blobs.dom().contains(id),
        store.blobs[id].record is None,
    ensures
        activities_at(store.blobs, id) == 0,
        bytes_at(store.blobs, id) == 0,
        activities_listed(store.order, store.blobs) == activities_listed(
            without(store.order, id),
            store.blobs,
        ),
        bytes_listed(store.order, store.blobs) == bytes_listed(without(store.order, id), store.blobs),
    decreases store.order.len(),
{
    if store.order.len() > 0 {
        let front = StoreState { order: store.order.drop_last(), ..store };
        lemma_unreadable_blob_is_passed_over(front, id);
        if store.order.last() != id {
            assert(without(store.order, id).drop_last() =~= without(front.order, id));
        }
    }
}

/// How the activities and bytes of a list split into those of the session
/// `id` and those of the rest, where `id` is listed once at most.
pub proof fn lemma_listed_split(order: Seq<Seq<char>>, blobs: Map<Seq<char>, BlobView>, id: Seq<char>)
    requires
        order.no_duplicates(),
    ensures
        activities_listed(order, blobs) == activities_listed(without(order, id), blobs) + (
        if order.contains(id) {
            activities_at(blobs, id)
        } else {
            0
        }),
        bytes_listed(order, blobs) == bytes_listed(without(order, id), blobs) + (if order.contains(
            id,
        ) {
            bytes_at(blobs, id)
        } else {
            0
        }),
        without(order, id).len() == order.len() - (if order.contains(id) {
            1int
        } else {
            0int
        }),
    decreases order.len(),
{
    if order.len() > 0 {
        let front = order.drop_last();
        let last = order.last();
        lemma_listed_split(front, blobs, id);
        if last == id {
            assert(order[order.len() - 1] == id);
            if front.contains(id) {
                let i = choose|i: int| 0 <= i < front.len() && front[i] == id;
                assert(order[i] == order[order.len() - 1]);
            }
        } else {
            assert(without(order, id).drop_last() =~= without(front, id));
            if order.contains(id) {
                let i = choose|i: int| 0 <= i < order.len() && order[i] == id;
                assert(front[i] == id);
            }
            if front.contains(id) {
                let i = choose|i: int| 0 <= i < front.len() && front[i] == id;
                assert(order[i] == id);
            }
        }
    }
}

/// **Deleted, then counted.** In a store that lists no session twice,
/// deleting a listed session leaves one session fewer, and takes its
/// activities and bytes out of those of the store, and no others.
pub proof fn lemma_delete_then_stats(store: StoreState, id: Seq<char>)
    requires
        store.order.no_duplicates(),
        store.order.contains(id),
    ensures
        deleted(store, id).order.len() == store.order.len() - 1,
        !deleted(store, id).order.contains(id),
        activities_listed(deleted(store, id).order, deleted(store, id).blobs) == activities_listed(
            store.order,
            store.blobs,
        ) - activities_at(store.blobs, id),
        bytes_listed(deleted(store, id).order, deleted(store, id).blobs) == bytes_listed(
            store.order,
            store.blobs,
        ) - bytes_at(store.blobs, id),
{
    let rest = without(store.order, id);
    lemma_listed_split(store.order, store.blobs, id);
    lemma_without_lacks(store.order, id);
    lemma_without_lacks(rest, id);
    lemma_missing_blob_is_passed_over(StoreState { order: rest, ..store }, id);
}

} // verus!
