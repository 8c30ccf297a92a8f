//! The store of the cache as the process knows it: the list of sessions in
//! the order of their last use, and what is kept for each session.

use crate::activity_cache::access_order::{evicted_by_touch, order_after_touch, without};
use crate::activity_cache::model::{
    ActivityCacheConfig, CacheMetadata, CacheStats, SessionCache, SessionCacheView,
};
use crate::activity_cache::refresh::{CacheError, SessionLookup};
use crate::text::{str_eq, texts};
use vstd::prelude::*;

verus! {

/// What is kept under a session's id.
#[derive(Debug)]
pub enum BlobContent {
    /// Something that cannot be read as a record.
    Unreadable,
    /// The session's record.
    Record(SessionCache),
}

/// What is kept for one session, and how much room it takes.
#[derive(Debug)]
pub struct StoredBlob {
    pub session_id: String,
    pub content: BlobContent,
    pub size_bytes: u64,
}

/// What a [`StoredBlob`] holds: the id it is kept under, the record, or
/// `None` where it cannot be read, and its size.
pub struct BlobView {
    pub session_id: Seq<char>,
    pub record: Option<SessionCacheView>,
    pub size_bytes: u64,
}

impl View for StoredBlob {
    type V = BlobView;

    open spec fn view(&self) -> BlobView {
        BlobView {
            session_id: self.session_id@,
            record: match self.content {
                BlobContent::Record(cache) => Some(cache@),
                BlobContent::Unreadable => None,
            },
            size_bytes: self.size_bytes,
        }
    }
}

/// The store: the list of sessions, and the blobs. Where several blobs
/// have one id, the last counts.
#[derive(Debug)]
pub struct CacheStore {
    pub metadata: CacheMetadata,
    pub blobs: Vec<StoredBlob>,
}

/// What `blobs` hold, by id.
pub open spec fn blobs_by_id(blobs: Seq<StoredBlob>) -> Map<Seq<char>, BlobView>
    decreases blobs.len(),
{
    if blobs.len() == 0 {
        Map::empty()
    } else {
        blobs_by_id(blobs.drop_last()).insert(blobs.last().session_id@, blobs.last()@)
    }
}

/// `blobs` without those of the id `id`.
pub open spec fn blobs_without(blobs: Seq<StoredBlob>, id: Seq<char>) -> Seq<StoredBlob>
    decreases blobs.len(),
{
    if blobs.len() == 0 {
        blobs
    } else if blobs.last().session_id@ == id {
        blobs_without(blobs.drop_last(), id)
    } else {
        blobs_without(blobs.drop_last(), id).push(blobs.last())
    }
}

/// What a [`CacheStore`] holds.
pub struct StoreState {
    /// The ids of the cached sessions, the least recently used first.
    pub order: Seq<Seq<char>>,
    pub config: ActivityCacheConfig,
    /// What is kept, by session id.
    pub blobs: Map<Seq<char>, BlobView>,
}

impl View for CacheStore {
    type V = StoreState;

    open spec fn view(&self) -> StoreState {
        StoreState {
            order: self.metadata@.access_order,
            config: self.metadata.config,
            blobs: blobs_by_id(self.blobs@),
        }
    }
}

/// The store after `blob` was saved under `id`: the blob is kept, the
/// session goes to the tail of the order, and the sessions that are then
/// too many leave the order, and with it the store.
pub open spec fn saved(store: StoreState, id: Seq<char>, blob: BlobView) -> StoreState {
    let max = store.config.max_sessions as nat;
    StoreState {
        order: order_after_touch(store.order, id, max),
        config: store.config,
        blobs: store.blobs.insert(id, blob).remove_keys(
            evicted_by_touch(store.order, id, max).to_set(),
        ),
    }
}

/// The store after the session `id` was deleted from it.
pub open spec fn deleted(store: StoreState, id: Seq<char>) -> StoreState {
    StoreState { order: without(store.order, id), config: store.config, blobs: store.blobs.remove(id) }
}

/// The activities that the store counts for the session `id`: those of
/// its record, where the session has one that can be read.
pub open spec fn activities_at(blobs: Map<Seq<char>, BlobView>, id: Seq<char>) -> nat {
    if blobs.dom().contains(id) {
        match blobs[id].record {
            Some(cache) => cache.activities.len(),
            None => 0,
        }
    } else {
        0
    }
}

/// The bytes that the store counts for the session `id`: the size of what
/// is kept for it, where that is a record that can be read.
pub open spec fn bytes_at(blobs: Map<Seq<char>, BlobView>, id: Seq<char>) -> nat {
    if blobs.dom().contains(id) && blobs[id].record is Some {
        blobs[id].size_bytes as nat
    } else {
        0
    }
}

/// The activities of the sessions `order` together.
pub open spec fn activities_listed(order: Seq<Seq<char>>, blobs: Map<Seq<char>, BlobView>) -> nat
    decreases order.len(),
{
    if order.len() == 0 {
        0
    } else {
        activities_listed(order.drop_last(), blobs) + activities_at(blobs, order.last())
    }
}

/// The bytes of the sessions `order` together.
pub open spec fn bytes_listed(order: Seq<Seq<char>>, blobs: Map<Seq<char>, BlobView>) -> nat
    decreases order.len(),
{
    if order.len() == 0 {
        0
    } else {
        bytes_listed(order.drop_last(), blobs) + bytes_at(blobs, order.last())
    }
}

/// `n`, or `max` where `n` is more.
pub open spec fn at_most(n: nat, max: nat) -> nat {
    if n <= max {
        n
    } else {
        max
    }
}

/// Taking the blobs of an id away takes the id's entry away, and no other.
pub proof fn lemma_blobs_without(blobs: Seq<StoredBlob>, id: Seq<char>)
    ensures
        blobs_by_id(blobs_without(blobs, id)) == blobs_by_id(blobs).remove(id),
        blobs_without(blobs, id).len() <= blobs.len(),
    decreases blobs.len(),
{
    if blobs.len() == 0 {
        assert(blobs_by_id(blobs) =~= blobs_by_id(blobs).remove(id));
    } else {
        let front = blobs.drop_last();
        let last = blobs.last();
        lemma_blobs_without(front, id);
        if last.session_id@ == id {
            assert(blobs_by_id(front).remove(id) =~= blobs_by_id(front).insert(
                id,
                last@,
            ).remove(id));
        } else {
            let kept = blobs_without(front, id).push(last);
            assert(kept.drop_last() =~= blobs_without(front, id));
            assert(blobs_by_id(front).remove(id).insert(last.session_id@, last@)
                =~= blobs_by_id(front).insert(last.session_id@, last@).remove(id));
        }
    }
}

impl CacheStore {
    /// A store with the list `metadata` and nothing kept.
    pub fn new(metadata: CacheMetadata) -> (store: CacheStore)
        ensures
            store.metadata == metadata,
            store@.blobs == Map::<Seq<char>, BlobView>::empty(),
    {
        CacheStore { metadata, blobs: Vec::new() }
    }

    /// Where the blob of the session `session_id` stands.
    fn find(&self, session_id: &str) -> (at: Option<usize>)
        ensures
            match at {
                Some(i) => i < self.blobs.len() && self.blobs[i as int].session_id@ == session_id@
                    && self@.blobs.dom().contains(session_id@) && self@.blobs[session_id@]
                    == self.blobs[i as int]@,
                None => !self@.blobs.dom().contains(session_id@),
            },
    {
        let mut i: usize = self.blobs.len();
        proof {
            assert(self.blobs@.take(i as int) =~= self.blobs@);
        }
        while i > 0
            invariant
                i <= self.blobs.len(),
                self@.blobs.dom().contains(session_id@) <==> blobs_by_id(
                    self.blobs@.take(i as int),
                ).dom().contains(session_id@),
                self@.blobs.dom().contains(session_id@) ==> self@.blobs[session_id@] == blobs_by_id(
                    self.blobs@.take(i as int),
                )[session_id@],
            decreases i,
        {
            proof {
                assert(self.blobs@.take(i as int).drop_last() =~= self.blobs@.take(i - 1));
                assert(self.blobs@.take(i as int).last() == self.blobs@[i - 1]);
            }
            i = i - 1;
            if str_eq(self.blobs[i].session_id.as_str(), session_id) {
                return Some(i);
            }
        }
        None
    }

    /// Takes away what is kept for the session `session_id`.
    pub fn remove_blob(&mut self, session_id: &str)
        ensures
            final(self)@.blobs == old(self)@.blobs.remove(session_id@),
            final(self).metadata == old(self).metadata,
    {
        let ghost before = self.blobs@;
        let mut i: usize = 0;
        let ghost mut seen: int = 0;
        proof {
            assert(before.take(0) =~= Seq::<StoredBlob>::empty());
            assert(before.skip(0) =~= before);
            assert(self.blobs@ =~= blobs_without(before.take(0), session_id@) + before.skip(0));
        }
        while i < self.blobs.len()
            invariant
                0 <= seen <= before.len(),
                i == blobs_without(before.take(seen), session_id@).len(),
                self.blobs@ == blobs_without(before.take(seen), session_id@) + before.skip(seen),
                self.metadata == old(self).metadata,
            decreases before.len() - seen,
        {
            proof {
                assert(seen < before.len());
                assert(before.take(seen + 1).drop_last() =~= before.take(seen));
                assert(before.take(seen + 1).last() == before[seen]);
                assert(self.blobs@[i as int] == before.skip(seen)[0]);
            }
            let ghost kept = blobs_without(before.take(seen), session_id@);
            if str_eq(self.blobs[i].session_id.as_str(), session_id) {
                self.blobs.remove(i);
                proof {
                    assert(self.blobs@ =~= kept + before.skip(seen + 1));
                    seen = seen + 1;
                }
            } else {
                proof {
                    assert(self.blobs@ =~= kept.push(before[seen]) + before.skip(seen + 1));
                    seen = seen + 1;
                }
                i = i + 1;
            }
        }
        proof {
            assert(seen == before.len());
            assert(before.take(seen) =~= before);
            assert(self.blobs@ =~= blobs_without(before, session_id@));
            lemma_blobs_without(before, session_id@);
        }
    }

    /// Keeps `blob` under its session's id, in place of what was kept for
    /// that session.
    pub fn put_blob(&mut self, blob: StoredBlob)
        ensures
            final(self)@.blobs == old(self)@.blobs.insert(blob.session_id@, blob@),
            final(self).metadata == old(self).metadata,
    {
        self.remove_blob(blob.session_id.as_str());
        let ghost rest = self.blobs@;
        self.blobs.push(blob);
        proof {
            assert(self.blobs@.drop_last() =~= rest);
            assert(old(self)@.blobs.remove(blob.session_id@).insert(blob.session_id@, blob@)
                =~= old(self)@.blobs.insert(blob.session_id@, blob@));
        }
    }
}

/// What the store has for the session `session_id`: a copy of its record,
/// `None` where nothing is kept for it, and an error where what is kept
/// cannot be read.
pub fn load_session_cache(store: &CacheStore, session_id: &str) -> (r: Result<
    Option<SessionCache>,
    CacheError,
>)
    ensures
        match r {
            Ok(Some(cache)) => store@.blobs.dom().contains(session_id@)
                && store@.blobs[session_id@].record == Some(cache@),
            Ok(None) => !store@.blobs.dom().contains(session_id@),
            Err(e) => e == CacheError::Serialization && store@.blobs.dom().contains(session_id@)
                && store@.blobs[session_id@].record is None,
        },
{
    match store.find(session_id) {
        None => Ok(None),
        Some(i) => match &store.blobs[i].content {
            BlobContent::Record(cache) => Ok(Some(cache.clone())),
            BlobContent::Unreadable => Err(CacheError::Serialization),
        },
    }
}

/// What the store has for the session `session_id`, as a plan for a
/// refresh starts from it.
pub fn look_up(store: &CacheStore, session_id: &str) -> (lookup: SessionLookup)
    ensures
        match lookup {
            SessionLookup::Found(cache) => store@.blobs.dom().contains(session_id@)
                && store@.blobs[session_id@].record == Some(cache@),
            SessionLookup::Missing => !store@.blobs.dom().contains(session_id@),
            SessionLookup::Unreadable => store@.blobs.dom().contains(session_id@)
                && store@.blobs[session_id@].record is None,
        },
{
    match load_session_cache(store, session_id) {
        Ok(Some(cache)) => SessionLookup::Found(cache),
        Ok(None) => SessionLookup::Missing,
        Err(_) => SessionLookup::Unreadable,
    }
}

/// Keeps the record `cache`, which takes `size_bytes` in the store, and
/// records that its session was used: the session goes to the tail of the
/// order, and the sessions that are then too many leave the store. Returns
/// those, the least recently used first.
pub fn save_session_cache(store: &mut CacheStore, cache: SessionCache, size_bytes: u64) -> (evicted:
    Vec<String>)
    ensures
        final(store)@ == saved(
            old(store)@,
            cache.session_id@,
            BlobView { session_id: cache.session_id@, record: Some(cache@), size_bytes },
        ),
        texts(evicted@) == evicted_by_touch(
            old(store)@.order,
            cache.session_id@,
            old(store).metadata.config.max_sessions as nat,
        ),
        final(store).metadata.within_limit(),
        old(store).metadata.wf() ==> final(store).metadata.wf(),
{
    let id = cache.session_id.clone();
    let blob = StoredBlob { session_id: cache.session_id.clone(), content: BlobContent::Record(cache), size_bytes };
    store.put_blob(blob);
    let evicted = store.metadata.touch(id.as_str());
    let ghost kept = store@.blobs;
    let ghost gone = texts(evicted@);
    let mut i: usize = 0;
    proof {
        assert(gone.take(0).to_set() =~= Set::<Seq<char>>::empty());
        assert(kept.remove_keys(gone.take(0).to_set()) =~= kept);
    }
    while i < evicted.len()
        invariant
            i <= evicted.len(),
            gone == texts(evicted@),
            store@.blobs == kept.remove_keys(gone.take(i as int).to_set()),
            store.metadata@.access_order == order_after_touch(
                old(store)@.order,
                cache.session_id@,
                old(store).metadata.config.max_sessions as nat,
            ),
            store.metadata.config == old(store).metadata.config,
            store.metadata.within_limit(),
            old(store).metadata.wf() ==> store.metadata.wf(),
        decreases evicted.len() - i,
    {
        store.remove_blob(evicted[i].as_str());
        proof {
            let before = gone.take(i as int).to_set();
            let after = gone.take(i + 1).to_set();
            assert(gone.take(i + 1) =~= gone.take(i as int).push(gone[i as int]));
            let shorter = gone.take(i as int);
            let longer = gone.take(i + 1);
            assert forall|s: Seq<char>| after.contains(s) <==> before.insert(gone[i as int]).contains(
                s,
            ) by {
                if longer.contains(s) {
                    let k = choose|k: int| 0 <= k < longer.len() && longer[k] == s;
                    if k < i {
                        assert(shorter[k] == s);
                    }
                }
                if shorter.contains(s) {
                    let k = choose|k: int| 0 <= k < shorter.len() && shorter[k] == s;
                    assert(longer[k] == s);
                }
                if s == gone[i as int] {
                    assert(longer[i as int] == s);
                }
            }
            assert(after =~= before.insert(gone[i as int]));
            assert(kept.remove_keys(before).remove(gone[i as int]) =~= kept.remove_keys(after));
        }
        i = i + 1;
    }
    proof {
        assert(gone.take(i as int) =~= gone);
    }
    evicted
}

/// What came of writing a record to where the store is kept.
#[derive(Debug, Clone, Copy, PartialEq, Eq, Structural)]
pub enum Written {
    /// The record is written, and takes `size_bytes`.
    Stored { size_bytes: u64 },
    /// The write failed.
    Failed,
}

/// `after` is the store `before` once the record `cache`, which takes
/// `size_bytes`, is kept in it, and `evicted` are the sessions that left.
pub open spec fn kept_in(
    before: CacheStore,
    cache: SessionCache,
    size_bytes: u64,
    after: CacheStore,
    evicted: Vec<String>,
) -> bool {
    let max = before.metadata.config.max_sessions as nat;
    &&& after@ == saved(
        before@,
        cache.session_id@,
        BlobView { session_id: cache.session_id@, record: Some(cache@), size_bytes },
    )
    &&& texts(evicted@) == evicted_by_touch(before@.order, cache.session_id@, max)
    &&& after.metadata.within_limit()
    &&& before.metadata.wf() ==> after.metadata.wf()
}

/// Takes note of what came of writing the record `cache`. A write that
/// failed is an error, and the store stays as it is: the session is not
/// listed as used, and no session leaves. A record that is written is kept
/// as `save_session_cache` keeps it.
pub fn commit_session_cache(store: &mut CacheStore, cache: SessionCache, written: Written) -> (r:
    Result<Vec<String>, CacheError>)
    ensures
        match written {
            Written::Failed => {
                &&& r matches Err(e) && e == CacheError::Storage
                &&& *final(store) == *old(store)
            },
            Written::Stored { size_bytes } => r matches Ok(evicted) && kept_in(
                *old(store),
                cache,
                size_bytes,
                *final(store),
                evicted,
            ),
        },
{
    match written {
        Written::Failed => Err(CacheError::Storage),
        Written::Stored { size_bytes } => Ok(save_session_cache(store, cache, size_bytes)),
    }
}

/// Takes the session `session_id` out of the store: what is kept for it,
/// and its place in the order. A session that is not there changes nothing.
pub fn delete_session_cache(store: &mut CacheStore, session_id: &str)
    ensures
        final(store)@ == deleted(old(store)@, session_id@),
        old(store).metadata.wf() ==> final(store).metadata.wf(),
{
    store.remove_blob(session_id);
    store.metadata.forget(session_id);
}

/// Empties the store: nothing is kept, no session is listed, and the
/// setup is what a new store starts with.
pub fn clear_all_cache(store: &mut CacheStore)
    ensures
        final(store)@.order == Seq::<Seq<char>>::empty(),
        final(store)@.blobs == Map::<Seq<char>, BlobView>::empty(),
        final(store).metadata.config.enabled,
        final(store).metadata.config.max_sessions == 50,
{
    store.blobs = Vec::new();
    store.metadata = CacheMetadata::default();
}

/// The figures of the store, which is kept at `cache_dir`: the listed
/// sessions are counted, and for each of them the activities of its
/// record and the bytes that the record takes. A listed session for which
/// nothing is kept, or nothing that can be read, counts as a session and
/// adds neither activities nor bytes. A sum that the result's type cannot
/// hold is given as the largest value of that type.
pub fn get_cache_stats(store: &CacheStore, cache_dir: String) -> (stats: CacheStats)
    ensures
        stats.enabled == store.metadata.config.enabled,
        stats.total_sessions == store@.order.len(),
        stats.max_sessions == store.metadata.config.max_sessions,
        stats.total_activities == at_most(
            activities_listed(store@.order, store@.blobs),
            usize::MAX as nat,
        ),
        stats.total_size_bytes == at_most(bytes_listed(store@.order, store@.blobs), u64::MAX as nat),
        stats.cache_dir == cache_dir,
{
    let ghost order = store@.order;
    let mut activities: usize = 0;
    let mut bytes: u64 = 0;
    let mut i: usize = 0;
    while i < store.metadata.access_order.len()
        invariant
            i <= store.metadata.access_order.len(),
            order == store@.order,
            activities == at_most(
                activities_listed(order.take(i as int), store@.blobs),
                usize::MAX as nat,
            ),
            bytes == at_most(bytes_listed(order.take(i as int), store@.blobs), u64::MAX as nat),
        decreases store.metadata.access_order.len() - i,
    {
        proof {
            assert(order.take(i + 1).drop_last() =~= order.take(i as int));
            assert(order.take(i + 1).last() == store.metadata.access_order[i as int]@);
        }
        if let Some(at) = store.find(store.metadata.access_order[i].as_str()) {
            let blob = &store.blobs[at];
            if let BlobContent::Record(cache) = &blob.content {
                activities = activities.saturating_add(cache.activities.len());
                bytes = bytes.saturating_add(blob.size_bytes);
            }
        }
        i = i + 1;
    }
    proof {
        assert(order.take(i as int) =~= order);
    }
    CacheStats {
        enabled: store.metadata.config.enabled,
        total_sessions: store.metadata.access_order.len(),
        max_sessions: store.metadata.config.max_sessions,
        total_activities: activities,
        total_size_bytes: bytes,
        cache_dir,
    }
}

} // verus!
