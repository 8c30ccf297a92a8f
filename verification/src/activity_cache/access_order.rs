//! The order of last use: which session goes to the tail, and which
//! sessions leave at the front when there are too many.

use crate::activity_cache::model::CacheMetadata;
use crate::text::{clone_texts, str_eq, texts};
use vstd::prelude::*;

verus! {

/// `order` without every entry that is `id`.
pub open spec fn without(order: Seq<Seq<char>>, id: Seq<char>) -> Seq<Seq<char>>
    decreases order.len(),
{
    if order.len() == 0 {
        order
    } else if order.last() == id {
        without(order.drop_last(), id)
    } else {
        without(order.drop_last(), id).push(order.last())
    }
}

/// By how many `len` entries are more than `max`.
pub open spec fn surplus(len: nat, max: nat) -> nat {
    if len > max {
        (len - max) as nat
    } else {
        0
    }
}

/// `order` with `id` moved, or added, to the tail.
pub open spec fn moved_to_tail(order: Seq<Seq<char>>, id: Seq<char>) -> Seq<Seq<char>> {
    without(order, id).push(id)
}

/// The entries at the front of `order` that are more than `max` allows.
pub open spec fn surplus_of(order: Seq<Seq<char>>, max: nat) -> Seq<Seq<char>> {
    order.take(surplus(order.len(), max) as int)
}

/// `order` cut down to `max` entries, the front going first.
pub open spec fn capped(order: Seq<Seq<char>>, max: nat) -> Seq<Seq<char>> {
    order.skip(surplus(order.len(), max) as int)
}

/// The order after the session `id` was used, under a limit of `max`.
pub open spec fn order_after_touch(order: Seq<Seq<char>>, id: Seq<char>, max: nat) -> Seq<
    Seq<char>,
> {
    capped(moved_to_tail(order, id), max)
}

/// The sessions that leave the cache when the session `id` is used.
pub open spec fn evicted_by_touch(order: Seq<Seq<char>>, id: Seq<char>, max: nat) -> Seq<
    Seq<char>,
> {
    surplus_of(moved_to_tail(order, id), max)
}

impl CacheMetadata {
    /// No session is listed twice.
    pub open spec fn wf(&self) -> bool {
        self@.access_order.no_duplicates()
    }

    /// No more sessions are listed than the setup allows.
    pub open spec fn within_limit(&self) -> bool {
        self.access_order.len() <= self.config.max_sessions
    }

    /// Takes the session `session_id` off the list, wherever it stands.
    pub fn forget(&mut self, session_id: &str)
        ensures
            final(self)@.access_order == without(old(self)@.access_order, session_id@),
            final(self).config == old(self).config,
            old(self).wf() ==> final(self).wf(),
            final(self).access_order.len() <= old(self).access_order.len(),
    {
        let mut kept: Vec<String> = Vec::new();
        let mut i: usize = 0;
        let ghost before = texts(self.access_order@);
        while i < self.access_order.len()
            invariant
                i <= self.access_order.len(),
                before == texts(self.access_order@),
                texts(kept@) == without(before.take(i as int), session_id@),
                kept.len() <= i,
            decreases self.access_order.len() - i,
        {
            proof {
                assert(before.take(i + 1).drop_last() =~= before.take(i as int));
            }
            if !str_eq(self.access_order[i].as_str(), session_id) {
                kept.push(self.access_order[i].clone());
                proof {
                    assert(texts(kept@) =~= without(before.take(i as int), session_id@).push(
                        before[i as int],
                    ));
                }
            }
            i = i + 1;
        }
        proof {
            assert(before.take(i as int) =~= before);
            lemma_without_keeps_distinct(before, session_id@);
            lemma_without_lacks(before, session_id@);
        }
        self.access_order = kept;
    }

    /// Takes the sessions off the front of the list that are more than the
    /// setup allows, and returns them, the least recently used first.
    pub fn evict_surplus(&mut self) -> (evicted: Vec<String>)
        ensures
            texts(evicted@) == surplus_of(old(self)@.access_order, old(self).config.max_sessions as nat),
            final(self)@.access_order == capped(
                old(self)@.access_order,
                old(self).config.max_sessions as nat,
            ),
            final(self).config == old(self).config,
            final(self).within_limit(),
            old(self).wf() ==> final(self).wf(),
    {
        let ghost before = texts(self.access_order@);
        let len = self.access_order.len();
        let max = self.config.max_sessions;
        let cut: usize = if len > max {
            len - max
        } else {
            0
        };
        let rest = self.access_order.split_off(cut);
        let mut evicted: Vec<String> = Vec::new();
        std::mem::swap(&mut evicted, &mut self.access_order);
        self.access_order = rest;
        proof {
            assert(texts(evicted@) =~= before.take(cut as int));
            assert(texts(self.access_order@) =~= before.skip(cut as int));
            lemma_capped_keeps_distinct(before, max as nat);
        }
        evicted
    }

    /// Records that the session `session_id` was used: it goes to the tail
    /// of the list, and the sessions that are then too many leave at the
    /// front. Returns those, the least recently used first.
    pub fn touch(&mut self, session_id: &str) -> (evicted: Vec<String>)
        ensures
            final(self)@.access_order == order_after_touch(
                old(self)@.access_order,
                session_id@,
                old(self).config.max_sessions as nat,
            ),
            texts(evicted@) == evicted_by_touch(
                old(self)@.access_order,
                session_id@,
                old(self).config.max_sessions as nat,
            ),
            final(self).config == old(self).config,
            final(self).within_limit(),
            old(self).wf() ==> final(self).wf(),
    {
        self.forget(session_id);
        let ghost others = texts(self.access_order@);
        self.access_order.push(session_id.to_owned());
        proof {
            assert(texts(self.access_order@) =~= others.push(session_id@));
            if old(self).wf() {
                lemma_without_lacks(texts(old(self).access_order@), session_id@);
                lemma_push_keeps_distinct(others, session_id@);
            }
        }
        self.evict_surplus()
    }
}

/// The ids of the cached sessions, the least recently used first.
pub fn list_cached_sessions(metadata: &CacheMetadata) -> (ids: Vec<String>)
    ensures
        texts(ids@) == metadata@.access_order,
{
    clone_texts(&metadata.access_order)
}

/// Taking an id off a list leaves every other entry, and none with that id.
pub proof fn lemma_without_lacks(order: Seq<Seq<char>>, id: Seq<char>)
    ensures
        forall|s: Seq<char>| #[trigger] without(order, id).contains(s) <==> s != id && order.contains(s),
        without(order, id).len() <= order.len(),
        !order.contains(id) ==> without(order, id) == order,
    decreases order.len(),
{
    if order.len() > 0 {
        let front = order.drop_last();
        let last = order.last();
        lemma_without_lacks(front, id);
        let w = without(order, id);
        let wf = without(front, id);
        assert forall|s: Seq<char>| #[trigger] w.contains(s) <==> s != id && order.contains(s) by {
            if w.contains(s) {
                let i = choose|i: int| 0 <= i < w.len() && w[i] == s;
                if last != id && i == w.len() - 1 {
                    assert(order[order.len() - 1] == s);
                } else {
                    assert(wf[i] == s);
                    assert(wf.contains(s));
                    let j = choose|j: int| 0 <= j < front.len() && front[j] == s;
                    assert(order[j] == s);
                }
            }
            if s != id && order.contains(s) {
                let j = choose|j: int| 0 <= j < order.len() && order[j] == s;
                if j == order.len() - 1 {
                    assert(w[w.len() - 1] == s);
                } else {
                    assert(front[j] == s);
                    assert(wf.contains(s));
                    let i = choose|i: int| 0 <= i < wf.len() && wf[i] == s;
                    assert(w[i] == s);
                }
            }
        }
        if !order.contains(id) {
            assert(order[order.len() - 1] != id);
            if front.contains(id) {
                let j = choose|j: int| 0 <= j < front.len() && front[j] == id;
                assert(order[j] == id);
            }
            assert(w =~= order);
        }
    }
}

/// Taking an id off a list in which nothing stands twice leaves such a list.
pub proof fn lemma_without_keeps_distinct(order: Seq<Seq<char>>, id: Seq<char>)
    ensures
        order.no_duplicates() ==> without(order, id).no_duplicates(),
    decreases order.len(),
{
    if order.len() > 0 && order.no_duplicates() {
        let front = order.drop_last();
        let last = order.last();
        lemma_without_keeps_distinct(front, id);
        lemma_without_lacks(front, id);
        if last != id {
            let f = without(front, id);
            if f.contains(last) {
                let i = choose|i: int| 0 <= i < front.len() && front[i] == last;
                assert(order[i] == order[order.len() - 1]);
            }
            lemma_push_keeps_distinct(f, last);
        }
    }
}

/// A new entry at the tail of a list in which nothing stands twice leaves
/// such a list.
pub proof fn lemma_push_keeps_distinct(order: Seq<Seq<char>>, id: Seq<char>)
    requires
        order.no_duplicates(),
        !order.contains(id),
    ensures
        order.push(id).no_duplicates(),
{
    let t = order.push(id);
    assert forall|i: int, j: int| 0 <= i < t.len() && 0 <= j < t.len() && i != j implies t[i]
        != t[j] by {
        if i == order.len() {
            assert(order[j] == t[j]);
        } else if j == order.len() {
            assert(order[i] == t[i]);
        }
    }
}

/// Cutting a list in which nothing stands twice leaves such a list.
pub proof fn lemma_capped_keeps_distinct(order: Seq<Seq<char>>, max: nat)
    ensures
        order.no_duplicates() ==> capped(order, max).no_duplicates(),
        capped(order, max).len() <= max,
        surplus_of(order, max) + capped(order, max) == order,
{
    assert(surplus_of(order, max) + capped(order, max) =~= order);
}

/// The order after the sessions `ids` were used one after the other.
pub open spec fn order_after_touches(order: Seq<Seq<char>>, ids: Seq<Seq<char>>, max: nat) -> Seq<
    Seq<char>,
>
    decreases ids.len(),
{
    if ids.len() == 0 {
        order
    } else {
        order_after_touch(order_after_touches(order, ids.drop_last(), max), ids.last(), max)
    }
}

/// The sessions that left the cache while the sessions `ids` were used one
/// after the other, in the order in which they left.
pub open spec fn evicted_by_touches(order: Seq<Seq<char>>, ids: Seq<Seq<char>>, max: nat) -> Seq<
    Seq<char>,
>
    decreases ids.len(),
{
    if ids.len() == 0 {
        Seq::empty()
    } else {
        evicted_by_touches(order, ids.drop_last(), max) + evicted_by_touch(
            order_after_touches(order, ids.drop_last(), max),
            ids.last(),
            max,
        )
    }
}

/// **First in, first out.** When sessions that are all different are used
/// one after the other on an empty cache with a limit of `max`, the cache
/// then lists the last `max` of them, in that order, and all before those
/// have left it, in that order. With `max + k` sessions it lists `max` and
/// `k` have left.
pub proof fn lemma_first_in_first_out(ids: Seq<Seq<char>>, max: nat)
    requires
        ids.no_duplicates(),
    ensures
        order_after_touches(Seq::empty(), ids, max) == capped(ids, max),
        evicted_by_touches(Seq::empty(), ids, max) == surplus_of(ids, max),
        ids.len() >= max ==> order_after_touches(Seq::empty(), ids, max).len() == max
            && evicted_by_touches(Seq::empty(), ids, max).len() == ids.len() - max,
    decreases ids.len(),
{
    let start = Seq::<Seq<char>>::empty();
    if ids.len() == 0 {
        assert(capped(ids, max) =~= start);
        assert(surplus_of(ids, max) =~= start);
    } else {
        let front = ids.drop_last();
        let x = ids.last();
        lemma_first_in_first_out(front, max);
        let t = capped(front, max);
        if t.contains(x) {
            let i = choose|i: int| 0 <= i < t.len() && t[i] == x;
            let cut = surplus(front.len(), max) as int;
            assert(ids[i + cut] == ids[ids.len() - 1]);
        }
        lemma_without_lacks(t, x);
        let moved = t.push(x);
        assert(moved == moved_to_tail(t, x));
        assert(capped(moved, max) =~= capped(ids, max));
        assert(surplus_of(front, max) + surplus_of(moved, max) =~= surplus_of(ids, max));
    }
}

/// **Use spares.** Under a limit of at least one session, the session that
/// was used stands at the tail of the order, and does not leave the cache
/// on that use, wherever it stood before.
pub proof fn lemma_touch_moves_to_tail(order: Seq<Seq<char>>, id: Seq<char>, max: nat)
    requires
        max >= 1,
    ensures
        order_after_touch(order, id, max).len() >= 1,
        order_after_touch(order, id, max).last() == id,
        !evicted_by_touch(order, id, max).contains(id),
{
    let w = without(order, id);
    lemma_without_lacks(order, id);
    let moved = w.push(id);
    let gone = evicted_by_touch(order, id, max);
    if gone.contains(id) {
        let i = choose|i: int| 0 <= i < gone.len() && gone[i] == id;
        assert(w[i] == id);
        assert(w.contains(id));
    }
}

/// **Use spares the next time too.** Under a limit of at least two
/// sessions, the session that was used last does not leave the cache when
/// another session is used next, even where it was the least recently used
/// before.
pub proof fn lemma_touch_exempts(
    order: Seq<Seq<char>>,
    id: Seq<char>,
    other: Seq<char>,
    max: nat,
)
    requires
        max >= 2,
        other != id,
    ensures
        !evicted_by_touch(order_after_touch(order, id, max), other, max).contains(id),
        order_after_touch(order_after_touch(order, id, max), other, max).contains(id),
{
    let w = without(order, id);
    lemma_without_lacks(order, id);
    let t = order_after_touch(order, id, max);
    lemma_touch_moves_to_tail(order, id, max);
    let head = t.drop_last();
    assert(t =~= head.push(id));
    assert forall|i: int| 0 <= i < head.len() implies head[i] != id by {
        let cut = surplus(w.push(id).len(), max) as int;
        assert(head[i] == w[i + cut]);
        if head[i] == id {
            assert(w.contains(id));
        }
    }
    let w2 = without(t, other);
    assert(w2 == without(head, other).push(id));
    lemma_without_lacks(head, other);
    let moved = w2.push(other);
    let gone = evicted_by_touch(t, other, max);
    let cut2 = surplus(moved.len(), max) as int;
    assert(cut2 <= 1);
    if gone.contains(id) {
        let i = choose|i: int| 0 <= i < gone.len() && gone[i] == id;
        assert(i == 0);
        assert(w2.len() >= 2);
        assert(w2[0] == without(head, other)[0]);
        assert(without(head, other).contains(id));
    }
    let after = order_after_touch(t, other, max);
    assert(after[w2.len() - 1 - cut2] == id);
}

} // verus!
