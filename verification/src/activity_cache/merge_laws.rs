//! What holds of merging: each id once, the newest first, and nothing new
//! on merging again.

use crate::activity_cache::merge::{
    distinct_ids, holds_id, last_of_each_id, latest_by_id, merge_of, newest_first,
    newest_first_of, place, place_index,
};
use crate::text::{lemma_lex_le_total, lemma_lex_le_trans, lex_le};
use crate::types::activity::ActivityView;
use vstd::prelude::*;

verus! {

/// `place` puts `x` at `place_index`, in front of which every entry is
/// strictly newer than `x`.
pub proof fn lemma_place_is_insert(x: ActivityView, s: Seq<ActivityView>)
    ensures
        0 <= place_index(x, s) <= s.len(),
        place(x, s) == s.insert(place_index(x, s), x),
        forall|i: int| 0 <= i < place_index(x, s) ==> !lex_le(#[trigger] s[i].create_time, x.create_time),
        place_index(x, s) < s.len() ==> lex_le(s[place_index(x, s)].create_time, x.create_time),
    decreases s.len(),
{
    if s.len() == 0 || lex_le(s[0].create_time, x.create_time) {
        assert(seq![x] + s =~= s.insert(0, x));
    } else {
        let t = s.drop_first();
        lemma_place_is_insert(x, t);
        let p = place_index(x, t);
        assert(seq![s[0]] + t.insert(p, x) =~= s.insert(p + 1, x));
        assert forall|i: int| 0 <= i < p + 1 implies !lex_le(
            #[trigger] s[i].create_time,
            x.create_time,
        ) by {
            if i > 0 {
                assert(s[i] == t[i - 1]);
            }
        }
    }
}

/// `place_index` is the only index in front of which every entry is strictly
/// newer than `x` and at which the entry, if there is one, is not.
pub proof fn lemma_place_index_unique(x: ActivityView, s: Seq<ActivityView>, p: int)
    requires
        0 <= p <= s.len(),
        forall|i: int| 0 <= i < p ==> !lex_le(#[trigger] s[i].create_time, x.create_time),
        p < s.len() ==> lex_le(s[p].create_time, x.create_time),
    ensures
        p == place_index(x, s),
{
    lemma_place_is_insert(x, s);
    let q = place_index(x, s);
    if p < q {
        assert(!lex_le(s[p].create_time, x.create_time));
    } else if q < p {
        assert(!lex_le(s[q].create_time, x.create_time));
    }
}

/// `place` adds the id of `x` to the ids of `s`, and no other.
pub proof fn lemma_place_ids(x: ActivityView, s: Seq<ActivityView>, id: Seq<char>)
    ensures
        holds_id(place(x, s), id) <==> (x.id == id || holds_id(s, id)),
{
    lemma_place_is_insert(x, s);
    let p = place_index(x, s);
    let t = s.insert(p, x);
    if holds_id(t, id) {
        let i = choose|i: int| 0 <= i < t.len() && #[trigger] t[i].id == id;
        if i < p {
            assert(s[i].id == id);
        } else if i > p {
            assert(s[i - 1].id == id);
        }
    }
    if x.id == id {
        assert(t[p].id == id);
    }
    if holds_id(s, id) {
        let i = choose|i: int| 0 <= i < s.len() && #[trigger] s[i].id == id;
        if i < p {
            assert(t[i].id == id);
        } else {
            assert(t[i + 1].id == id);
        }
    }
}

/// Ordering the entries changes no id.
pub proof fn lemma_newest_first_of_ids(s: Seq<ActivityView>, id: Seq<char>)
    ensures
        holds_id(newest_first_of(s), id) <==> holds_id(s, id),
    decreases s.len(),
{
    if s.len() > 0 {
        let t = s.drop_first();
        lemma_newest_first_of_ids(t, id);
        lemma_place_ids(s[0], newest_first_of(t), id);
        if holds_id(s, id) {
            let i = choose|i: int| 0 <= i < s.len() && #[trigger] s[i].id == id;
            if i > 0 {
                assert(t[i - 1].id == id);
            }
        }
        if holds_id(t, id) {
            let i = choose|i: int| 0 <= i < t.len() && #[trigger] t[i].id == id;
            assert(s[i + 1].id == id);
        }
    }
}

/// `place` keeps entries ordered the newest first.
pub proof fn lemma_place_newest_first(x: ActivityView, s: Seq<ActivityView>)
    requires
        newest_first(s),
    ensures
        newest_first(place(x, s)),
{
    lemma_place_is_insert(x, s);
    let p = place_index(x, s);
    let t = s.insert(p, x);
    assert forall|i: int, j: int| 0 <= i < j < t.len() implies lex_le(
        #[trigger] t[j].create_time,
        #[trigger] t[i].create_time,
    ) by {
        if j < p {
            assert(t[i] == s[i] && t[j] == s[j]);
        } else if j == p {
            assert(t[i] == s[i]);
            lemma_lex_le_total(s[i].create_time, x.create_time);
        } else if i < p {
            assert(t[i] == s[i] && t[j] == s[j - 1]);
        } else if i == p {
            assert(t[j] == s[j - 1]);
            if j - 1 > p {
                lemma_lex_le_trans(s[j - 1].create_time, s[p].create_time, x.create_time);
            }
        } else {
            assert(t[i] == s[i - 1] && t[j] == s[j - 1]);
        }
    }
}

/// **Order.** `newest_first_of` gives its entries the newest first, and
/// gives each entry of `s` as often as `s` holds it.
pub proof fn lemma_newest_first_of(s: Seq<ActivityView>)
    ensures
        newest_first(newest_first_of(s)),
        newest_first_of(s).to_multiset() == s.to_multiset(),
        newest_first_of(s).len() == s.len(),
    decreases s.len(),
{
    broadcast use vstd::seq_lib::to_multiset_insert;

    if s.len() > 0 {
        let t = s.drop_first();
        lemma_newest_first_of(t);
        lemma_place_newest_first(s[0], newest_first_of(t));
        lemma_place_is_insert(s[0], newest_first_of(t));
        assert(s =~= t.insert(0, s[0]));
        assert(s.to_multiset() == t.to_multiset().insert(s[0]));
    } else {
        assert(s =~= Seq::<ActivityView>::empty());
    }
}

/// `place` keeps ids distinct where the id of `x` is new.
pub proof fn lemma_place_distinct(x: ActivityView, s: Seq<ActivityView>)
    requires
        distinct_ids(s),
        !holds_id(s, x.id),
    ensures
        distinct_ids(place(x, s)),
{
    lemma_place_is_insert(x, s);
    let p = place_index(x, s);
    let t = s.insert(p, x);
    assert forall|i: int, j: int| 0 <= i < j < t.len() implies #[trigger] t[i].id
        != #[trigger] t[j].id by {
        let a = if i < p { i } else { i - 1 };
        let b = if j < p { j } else { j - 1 };
        if i == p {
            assert(s[b].id != x.id);
        } else if j == p {
            assert(s[a].id != x.id);
        } else {
            assert(t[i] == s[a] && t[j] == s[b]);
        }
    }
}

/// The ids that have an entry in `latest_by_id(s)` are those of `s`.
pub proof fn lemma_latest_ids(s: Seq<ActivityView>, id: Seq<char>)
    ensures
        latest_by_id(s).dom().contains(id) <==> holds_id(s, id),
    decreases s.len(),
{
    if s.len() > 0 {
        let t = s.drop_last();
        lemma_latest_ids(t, id);
        if holds_id(s, id) {
            let i = choose|i: int| 0 <= i < s.len() && #[trigger] s[i].id == id;
            if i < s.len() - 1 {
                assert(t[i].id == id);
            }
        }
        if holds_id(t, id) {
            let i = choose|i: int| 0 <= i < t.len() && #[trigger] t[i].id == id;
            assert(s[i].id == id);
        }
        if s.last().id == id {
            assert(s[s.len() - 1].id == id);
        }
    }
}

/// An entry in front of `t` counts only where no entry of `t` has its id.
pub proof fn lemma_latest_prepend(x: ActivityView, t: Seq<ActivityView>)
    ensures
        latest_by_id(seq![x] + t) == if holds_id(t, x.id) {
            latest_by_id(t)
        } else {
            latest_by_id(t).insert(x.id, x)
        },
    decreases t.len(),
{
    let s = seq![x] + t;
    if t.len() == 0 {
        assert(s.drop_last() =~= t);
        assert(s.last() == x);
    } else {
        let u = t.drop_last();
        let l = t.last();
        assert(s.drop_last() =~= seq![x] + u);
        assert(s.last() == l);
        lemma_latest_prepend(x, u);
        lemma_latest_ids(t, x.id);
        lemma_latest_ids(u, x.id);
        if holds_id(u, x.id) {
        } else if l.id == x.id {
            assert(latest_by_id(u).insert(x.id, x).insert(l.id, l) =~= latest_by_id(u).insert(
                l.id,
                l,
            ));
        } else {
            assert(latest_by_id(u).insert(x.id, x).insert(l.id, l) =~= latest_by_id(u).insert(
                l.id,
                l,
            ).insert(x.id, x));
        }
    }
}

/// An entry put anywhere into `s` counts as its id's last where no entry
/// of `s` has that id.
pub proof fn lemma_latest_insert(s: Seq<ActivityView>, p: int, x: ActivityView)
    requires
        0 <= p <= s.len(),
        !holds_id(s, x.id),
    ensures
        latest_by_id(s.insert(p, x)) == latest_by_id(s).insert(x.id, x),
    decreases s.len(),
{
    let t = s.insert(p, x);
    if p == s.len() {
        assert(t.drop_last() =~= s);
    } else {
        let u = s.drop_last();
        let l = s.last();
        assert(t.drop_last() =~= u.insert(p, x));
        assert(t.last() == l);
        assert(s[s.len() - 1].id != x.id);
        if holds_id(u, x.id) {
            let i = choose|i: int| 0 <= i < u.len() && #[trigger] u[i].id == x.id;
            assert(s[i].id == x.id);
        }
        lemma_latest_insert(u, p, x);
        assert(latest_by_id(u).insert(x.id, x).insert(l.id, l) =~= latest_by_id(u).insert(
            l.id,
            l,
        ).insert(x.id, x));
    }
}

/// Ordering entries of distinct ids changes neither that nor which entry
/// each id has.
pub proof fn lemma_newest_first_of_keeps_entries(s: Seq<ActivityView>)
    requires
        distinct_ids(s),
    ensures
        distinct_ids(newest_first_of(s)),
        latest_by_id(newest_first_of(s)) == latest_by_id(s),
    decreases s.len(),
{
    if s.len() > 0 {
        let x = s[0];
        let t = s.drop_first();
        assert forall|i: int, j: int| 0 <= i < j < t.len() implies #[trigger] t[i].id
            != #[trigger] t[j].id by {
            assert(t[i] == s[i + 1] && t[j] == s[j + 1]);
        }
        if holds_id(t, x.id) {
            let i = choose|i: int| 0 <= i < t.len() && #[trigger] t[i].id == x.id;
            assert(s[i + 1].id == s[0].id);
        }
        lemma_newest_first_of_keeps_entries(t);
        lemma_newest_first_of_ids(t, x.id);
        let r = newest_first_of(t);
        lemma_place_distinct(x, r);
        lemma_place_is_insert(x, r);
        lemma_latest_insert(r, place_index(x, r), x);
        lemma_latest_prepend(x, t);
        assert(s =~= seq![x] + t);
    }
}

/// `last_of_each_id` has the ids of `s`, each once, with the entry that is
/// the id's last in `s`.
pub proof fn lemma_last_of_each_id(s: Seq<ActivityView>)
    ensures
        distinct_ids(last_of_each_id(s)),
        latest_by_id(last_of_each_id(s)) == latest_by_id(s),
        last_of_each_id(s).len() <= s.len(),
    decreases s.len(),
{
    if s.len() > 0 {
        let x = s[0];
        let t = s.drop_first();
        let r = last_of_each_id(t);
        lemma_last_of_each_id(t);
        lemma_latest_ids(r, x.id);
        lemma_latest_ids(t, x.id);
        lemma_latest_prepend(x, t);
        assert(s =~= seq![x] + t);
        if !holds_id(r, x.id) {
            lemma_latest_prepend(x, r);
            let u = seq![x] + r;
            assert forall|i: int, j: int| 0 <= i < j < u.len() implies #[trigger] u[i].id
                != #[trigger] u[j].id by {
                assert(u[j] == r[j - 1]);
                if i > 0 {
                    assert(u[i] == r[i - 1]);
                }
            }
        }
    }
}

/// The last entries by id of `a` followed by `b` are those of `b`, and
/// those of `a` for the ids that `b` does not have.
pub proof fn lemma_latest_of_concat(a: Seq<ActivityView>, b: Seq<ActivityView>)
    ensures
        latest_by_id(a + b) == latest_by_id(a).union_prefer_right(latest_by_id(b)),
    decreases b.len(),
{
    if b.len() == 0 {
        assert(a + b =~= a);
        assert(latest_by_id(a) =~= latest_by_id(a).union_prefer_right(latest_by_id(b)));
    } else {
        let u = b.drop_last();
        let l = b.last();
        assert((a + b).drop_last() =~= a + u);
        assert((a + b).last() == l);
        lemma_latest_of_concat(a, u);
        assert(latest_by_id(a).union_prefer_right(latest_by_id(u)).insert(l.id, l) =~= latest_by_id(
            a,
        ).union_prefer_right(latest_by_id(u).insert(l.id, l)));
    }
}

/// Where ids are distinct, each entry is the one that `latest_by_id` has
/// for its id.
pub proof fn lemma_latest_of_distinct(s: Seq<ActivityView>, i: int)
    requires
        distinct_ids(s),
        0 <= i < s.len(),
    ensures
        latest_by_id(s).dom().contains(s[i].id),
        latest_by_id(s)[s[i].id] == s[i],
    decreases s.len(),
{
    let t = s.drop_last();
    if i < s.len() - 1 {
        assert(s[i].id != s[s.len() - 1].id);
        assert forall|a: int, b: int| 0 <= a < b < t.len() implies #[trigger] t[a].id
            != #[trigger] t[b].id by {
            assert(t[a] == s[a] && t[b] == s[b]);
        }
        lemma_latest_of_distinct(t, i);
    }
}

/// **Each id once.** What a merge gives holds each id of `existing` and of
/// `incoming` once, and no other id; the entry of an id that `incoming` has
/// is the last that `incoming` has for it, and the entry of any other id is
/// the last that `existing` has for it.
pub proof fn lemma_merge_holds_each_id_once(existing: Seq<ActivityView>, incoming: Seq<ActivityView>)
    ensures
        distinct_ids(merge_of(existing, incoming)),
        forall|id: Seq<char>| #[trigger]
            holds_id(merge_of(existing, incoming), id) <==> holds_id(existing, id) || holds_id(
                incoming,
                id,
            ),
        latest_by_id(merge_of(existing, incoming)) == latest_by_id(existing).union_prefer_right(
            latest_by_id(incoming),
        ),
        forall|i: int|
            #![trigger merge_of(existing, incoming)[i]]
            0 <= i < merge_of(existing, incoming).len() ==> {
                let e = merge_of(existing, incoming)[i];
                if holds_id(incoming, e.id) {
                    e == latest_by_id(incoming)[e.id]
                } else {
                    e == latest_by_id(existing)[e.id]
                }
            },
        merge_of(existing, incoming).len() <= existing.len() + incoming.len(),
{
    let all = existing + incoming;
    let kept = last_of_each_id(all);
    let m = merge_of(existing, incoming);
    lemma_last_of_each_id(all);
    lemma_newest_first_of_keeps_entries(kept);
    lemma_newest_first_of(kept);
    lemma_latest_of_concat(existing, incoming);
    assert forall|id: Seq<char>| #[trigger]
        holds_id(m, id) <==> holds_id(existing, id) || holds_id(incoming, id) by {
        lemma_latest_ids(m, id);
        lemma_latest_ids(existing, id);
        lemma_latest_ids(incoming, id);
    }
    assert forall|i: int| #![trigger m[i]] 0 <= i < m.len() implies {
        let e = m[i];
        if holds_id(incoming, e.id) {
            e == latest_by_id(incoming)[e.id]
        } else {
            e == latest_by_id(existing)[e.id]
        }
    } by {
        lemma_latest_of_distinct(m, i);
        lemma_latest_ids(incoming, m[i].id);
    }
}

/// **Newest first.** What a merge gives is ordered by creation time, the
/// newest first: no entry is newer than one in front of it.
pub proof fn lemma_merge_newest_first(existing: Seq<ActivityView>, incoming: Seq<ActivityView>)
    ensures
        newest_first(merge_of(existing, incoming)),
        forall|i: int|
            0 <= i && i + 1 < merge_of(existing, incoming).len() ==> lex_le(
                (#[trigger] merge_of(existing, incoming)[i + 1]).create_time,
                merge_of(existing, incoming)[i].create_time,
            ),
{
    lemma_newest_first_of(last_of_each_id(existing + incoming));
    let m = merge_of(existing, incoming);
    assert forall|i: int| 0 <= i && i + 1 < m.len() implies lex_le(
        (#[trigger] m[i + 1]).create_time,
        m[i].create_time,
    ) by {
        let j = i + 1;
        assert(lex_le(m[j].create_time, m[i].create_time));
    }
}

/// The entries of `s` whose id no entry of `b` has, in their order.
pub open spec fn lacking(s: Seq<ActivityView>, b: Seq<ActivityView>) -> Seq<ActivityView>
    decreases s.len(),
{
    if s.len() == 0 {
        s
    } else if holds_id(b, s[0].id) {
        lacking(s.drop_first(), b)
    } else {
        seq![s[0]] + lacking(s.drop_first(), b)
    }
}

/// `last_of_each_id` has the ids of `s`.
pub proof fn lemma_last_of_each_id_ids(s: Seq<ActivityView>, id: Seq<char>)
    ensures
        holds_id(last_of_each_id(s), id) <==> holds_id(s, id),
{
    lemma_last_of_each_id(s);
    lemma_latest_ids(s, id);
    lemma_latest_ids(last_of_each_id(s), id);
}

/// `lacking` has the entries of `s` whose id `b` does not have, each an
/// entry of `s`.
pub proof fn lemma_lacking_ids(s: Seq<ActivityView>, b: Seq<ActivityView>)
    ensures
        forall|id: Seq<char>| #[trigger]
            holds_id(lacking(s, b), id) <==> holds_id(s, id) && !holds_id(b, id),
        forall|i: int|
            0 <= i < lacking(s, b).len() ==> exists|j: int|
                0 <= j < s.len() && s[j] == #[trigger] lacking(s, b)[i],
        (forall|j: int| 0 <= j < s.len() ==> !holds_id(b, (#[trigger] s[j]).id)) ==> lacking(s, b)
            == s,
        (forall|j: int| 0 <= j < s.len() ==> holds_id(b, (#[trigger] s[j]).id)) ==> lacking(s, b)
            == Seq::<ActivityView>::empty(),
    decreases s.len(),
{
    let l = lacking(s, b);
    if s.len() > 0 {
        let t = s.drop_first();
        let lt = lacking(t, b);
        lemma_lacking_ids(t, b);
        let keep = !holds_id(b, s[0].id);
        assert forall|id: Seq<char>| #[trigger]
            holds_id(l, id) <==> holds_id(s, id) && !holds_id(b, id) by {
            if holds_id(l, id) {
                let i = choose|i: int| 0 <= i < l.len() && #[trigger] l[i].id == id;
                if keep && i == 0 {
                    assert(s[0].id == id);
                } else {
                    let k = if keep { i - 1 } else { i };
                    assert(lt[k].id == id);
                    assert(holds_id(lt, id));
                    let j = choose|j: int| 0 <= j < t.len() && #[trigger] t[j].id == id;
                    assert(s[j + 1].id == id);
                }
            }
            if holds_id(s, id) && !holds_id(b, id) {
                let j = choose|j: int| 0 <= j < s.len() && #[trigger] s[j].id == id;
                if j == 0 {
                    assert(l[0].id == id);
                } else {
                    assert(t[j - 1].id == id);
                    assert(holds_id(lt, id));
                    let i = choose|i: int| 0 <= i < lt.len() && #[trigger] lt[i].id == id;
                    let k = if keep { i + 1 } else { i };
                    assert(l[k].id == id);
                }
            }
        }
        assert forall|i: int| 0 <= i < l.len() implies exists|j: int|
            0 <= j < s.len() && s[j] == #[trigger] l[i] by {
            if keep && i == 0 {
                assert(s[0] == l[0]);
            } else {
                let k = if keep { i - 1 } else { i };
                assert(lt[k] == l[i]);
                let j = choose|j: int| 0 <= j < t.len() && t[j] == lt[k];
                assert(s[j + 1] == l[i]);
            }
        }
        if forall|j: int| 0 <= j < s.len() ==> !holds_id(b, (#[trigger] s[j]).id) {
            assert forall|j: int| 0 <= j < t.len() implies !holds_id(b, (#[trigger] t[j]).id) by {
                assert(t[j] == s[j + 1]);
            }
            assert(!holds_id(b, s[0].id));
            assert(l =~= s);
        }
        if forall|j: int| 0 <= j < s.len() ==> holds_id(b, (#[trigger] s[j]).id) {
            assert forall|j: int| 0 <= j < t.len() implies holds_id(b, (#[trigger] t[j]).id) by {
                assert(t[j] == s[j + 1]);
            }
            assert(holds_id(b, s[0].id));
        }
    }
}

/// What `lacking` keeps of two sequences in a row is what it keeps of
/// each, in a row.
pub proof fn lemma_lacking_of_concat(u: Seq<ActivityView>, v: Seq<ActivityView>, b: Seq<ActivityView>)
    ensures
        lacking(u + v, b) == lacking(u, b) + lacking(v, b),
    decreases u.len(),
{
    if u.len() == 0 {
        assert(u + v =~= v);
        assert(lacking(u, b) + lacking(v, b) =~= lacking(v, b));
    } else {
        let t = u.drop_first();
        lemma_lacking_of_concat(t, v, b);
        assert((u + v).drop_first() =~= t + v);
        assert((u + v)[0] == u[0]);
        if !holds_id(b, u[0].id) {
            assert(seq![u[0]] + (lacking(t, b) + lacking(v, b)) =~= (seq![u[0]] + lacking(t, b))
                + lacking(v, b));
        }
    }
}

/// A sequence of distinct ids is its own `last_of_each_id`.
pub proof fn lemma_last_of_each_id_of_distinct(s: Seq<ActivityView>)
    requires
        distinct_ids(s),
    ensures
        last_of_each_id(s) == s,
    decreases s.len(),
{
    if s.len() > 0 {
        let t = s.drop_first();
        assert forall|i: int, j: int| 0 <= i < j < t.len() implies #[trigger] t[i].id
            != #[trigger] t[j].id by {
            assert(t[i] == s[i + 1] && t[j] == s[j + 1]);
        }
        lemma_last_of_each_id_of_distinct(t);
        if holds_id(t, s[0].id) {
            let i = choose|i: int| 0 <= i < t.len() && #[trigger] t[i].id == s[0].id;
            assert(s[i + 1].id == s[0].id);
        }
        assert(seq![s[0]] + t =~= s);
    }
}

/// Of `u` followed by `v`, `last_of_each_id` keeps what it keeps of `v`,
/// and in front of that what it keeps of `u` with an id that `v` does not
/// have.
pub proof fn lemma_last_of_each_id_of_concat(u: Seq<ActivityView>, v: Seq<ActivityView>)
    ensures
        last_of_each_id(u + v) == lacking(last_of_each_id(u), v) + last_of_each_id(v),
    decreases u.len(),
{
    if u.len() == 0 {
        assert(u + v =~= v);
        assert(lacking(last_of_each_id(u), v) + last_of_each_id(v) =~= last_of_each_id(v));
    } else {
        let x = u[0];
        let t = u.drop_first();
        let kept_t = last_of_each_id(t);
        let r = last_of_each_id(t + v);
        lemma_last_of_each_id_of_concat(t, v);
        assert((u + v).drop_first() =~= t + v);
        assert((u + v)[0] == x);
        lemma_last_of_each_id_ids(t + v, x.id);
        lemma_last_of_each_id_ids(t, x.id);
        lemma_last_of_each_id_ids(v, x.id);
        lemma_lacking_ids(kept_t, v);
        assert(holds_id(t + v, x.id) <==> holds_id(t, x.id) || holds_id(v, x.id)) by {
            if holds_id(t + v, x.id) {
                let i = choose|i: int| 0 <= i < (t + v).len() && #[trigger] (t + v)[i].id == x.id;
                if i < t.len() {
                    assert(t[i].id == x.id);
                } else {
                    assert(v[i - t.len()].id == x.id);
                }
            }
            if holds_id(t, x.id) {
                let i = choose|i: int| 0 <= i < t.len() && #[trigger] t[i].id == x.id;
                assert((t + v)[i].id == x.id);
            }
            if holds_id(v, x.id) {
                let i = choose|i: int| 0 <= i < v.len() && #[trigger] v[i].id == x.id;
                assert((t + v)[i + t.len()].id == x.id);
            }
        }
        if holds_id(v, x.id) {
            if !holds_id(kept_t, x.id) {
                assert((seq![x] + kept_t).drop_first() =~= kept_t);
            }
        } else if holds_id(kept_t, x.id) {
        } else {
            assert((seq![x] + kept_t).drop_first() =~= kept_t);
            assert(seq![x] + (lacking(kept_t, v) + last_of_each_id(v)) =~= (seq![x] + lacking(
                kept_t,
                v,
            )) + last_of_each_id(v));
        }
    }
}

/// Two entries of which one is strictly newer can be placed in either
/// order.
pub proof fn lemma_place_twice(t: ActivityView, x: ActivityView, s: Seq<ActivityView>)
    requires
        !lex_le(t.create_time, x.create_time),
    ensures
        place(t, place(x, s)) == place(x, place(t, s)),
    decreases s.len(),
{
    lemma_lex_le_total(t.create_time, x.create_time);
    if s.len() == 0 || lex_le(s[0].create_time, x.create_time) {
        let xs = seq![x] + s;
        assert(xs[0] == x);
        if s.len() > 0 {
            lemma_lex_le_trans(s[0].create_time, x.create_time, t.create_time);
        }
        let ts = seq![t] + s;
        assert(ts[0] == t);
        assert(ts.drop_first() =~= s);
        assert(seq![t] + (seq![x] + s) =~= seq![t] + xs);
    } else {
        let rest = s.drop_first();
        let xs = seq![s[0]] + place(x, rest);
        assert(xs[0] == s[0]);
        assert(xs.drop_first() =~= place(x, rest));
        if lex_le(s[0].create_time, t.create_time) {
            let ts = seq![t] + s;
            assert(ts[0] == t);
            assert(ts.drop_first() =~= s);
        } else {
            let ts = seq![s[0]] + place(t, rest);
            assert(ts[0] == s[0]);
            assert(ts.drop_first() =~= place(t, rest));
            lemma_place_twice(t, x, rest);
        }
    }
}

/// Placing an entry and then ordering is ordering and then placing it.
pub proof fn lemma_order_after_place(x: ActivityView, t: Seq<ActivityView>, q: Seq<ActivityView>)
    ensures
        newest_first_of(place(x, t) + q) == place(x, newest_first_of(t + q)),
    decreases t.len(),
{
    if t.len() == 0 || lex_le(t[0].create_time, x.create_time) {
        let all = (seq![x] + t) + q;
        assert(all[0] == x);
        assert(all.drop_first() =~= t + q);
    } else {
        let rest = t.drop_first();
        let all = (seq![t[0]] + place(x, rest)) + q;
        assert(all[0] == t[0]);
        assert(all.drop_first() =~= place(x, rest) + q);
        lemma_order_after_place(x, rest, q);
        lemma_place_twice(t[0], x, newest_first_of(rest + q));
        assert((t + q)[0] == t[0]);
        assert((t + q).drop_first() =~= rest + q);
    }
}

/// Ordering a front part first changes nothing of the order of the whole.
pub proof fn lemma_order_of_ordered_front(p: Seq<ActivityView>, q: Seq<ActivityView>)
    ensures
        newest_first_of(newest_first_of(p) + q) == newest_first_of(p + q),
    decreases p.len(),
{
    if p.len() == 0 {
        assert(newest_first_of(p) + q =~= p + q);
    } else {
        let rest = p.drop_first();
        lemma_order_after_place(p[0], newest_first_of(rest), q);
        lemma_order_of_ordered_front(rest, q);
        assert((p + q)[0] == p[0]);
        assert((p + q).drop_first() =~= rest + q);
    }
}

/// Of entries ordered the newest first, `lacking` keeps what it keeps
/// without the entry placed, and that entry at its place where `b` does
/// not have its id.
pub proof fn lemma_lacking_after_place(x: ActivityView, s: Seq<ActivityView>, b: Seq<ActivityView>)
    requires
        newest_first(s),
    ensures
        lacking(place(x, s), b) == if holds_id(b, x.id) {
            lacking(s, b)
        } else {
            place(x, lacking(s, b))
        },
    decreases s.len(),
{
    let kept = lacking(s, b);
    if s.len() == 0 || lex_le(s[0].create_time, x.create_time) {
        let xs = seq![x] + s;
        assert(xs[0] == x);
        assert(xs.drop_first() =~= s);
        if !holds_id(b, x.id) && kept.len() > 0 {
            lemma_lacking_ids(s, b);
            let j = choose|j: int| 0 <= j < s.len() && s[j] == kept[0];
            if j > 0 {
                lemma_lex_le_trans(s[j].create_time, s[0].create_time, x.create_time);
            }
        }
    } else {
        let rest = s.drop_first();
        assert forall|i: int, j: int| 0 <= i < j < rest.len() implies lex_le(
            #[trigger] rest[j].create_time,
            #[trigger] rest[i].create_time,
        ) by {
            assert(rest[i] == s[i + 1] && rest[j] == s[j + 1]);
        }
        lemma_lacking_after_place(x, rest, b);
        let xs = seq![s[0]] + place(x, rest);
        assert(xs[0] == s[0]);
        assert(xs.drop_first() =~= place(x, rest));
        if !holds_id(b, x.id) && !holds_id(b, s[0].id) {
            let ks = seq![s[0]] + lacking(rest, b);
            assert(ks[0] == s[0]);
            assert(ks.drop_first() =~= lacking(rest, b));
        }
    }
}

/// Ordering and then leaving entries out is leaving them out and then
/// ordering.
pub proof fn lemma_lacking_after_order(s: Seq<ActivityView>, b: Seq<ActivityView>)
    ensures
        lacking(newest_first_of(s), b) == newest_first_of(lacking(s, b)),
    decreases s.len(),
{
    if s.len() > 0 {
        let rest = s.drop_first();
        lemma_lacking_after_order(rest, b);
        lemma_newest_first_of(rest);
        lemma_lacking_after_place(s[0], newest_first_of(rest), b);
        if !holds_id(b, s[0].id) {
            let ks = seq![s[0]] + lacking(rest, b);
            assert(ks[0] == s[0]);
            assert(ks.drop_first() =~= lacking(rest, b));
        }
    }
}

/// **Merging again.** Merging the same `incoming` a second time changes
/// nothing: what the second merge gives is what the first gave.
pub proof fn lemma_merge_again(existing: Seq<ActivityView>, incoming: Seq<ActivityView>)
    ensures
        merge_of(merge_of(existing, incoming), incoming) == merge_of(existing, incoming),
{
    let once = merge_of(existing, incoming);
    let front = lacking(last_of_each_id(existing), incoming);
    let back = last_of_each_id(incoming);
    lemma_last_of_each_id_of_concat(existing, incoming);
    assert(once == newest_first_of(front + back));

    lemma_merge_holds_each_id_once(existing, incoming);
    lemma_last_of_each_id_of_distinct(once);
    lemma_last_of_each_id_of_concat(once, incoming);
    assert(last_of_each_id(once + incoming) == lacking(once, incoming) + back);

    lemma_lacking_after_order(front + back, incoming);
    lemma_lacking_of_concat(front, back, incoming);
    lemma_lacking_ids(last_of_each_id(existing), incoming);
    lemma_lacking_ids(front, incoming);
    lemma_lacking_ids(back, incoming);
    assert forall|j: int| 0 <= j < front.len() implies !holds_id(
        incoming,
        (#[trigger] front[j]).id,
    ) by {
        assert(holds_id(front, front[j].id));
    }
    assert forall|j: int| 0 <= j < back.len() implies holds_id(incoming, (#[trigger] back[j]).id) by {
        assert(holds_id(back, back[j].id));
        lemma_last_of_each_id_ids(incoming, back[j].id);
    }
    assert(lacking(front + back, incoming) =~= front);
    assert(lacking(once, incoming) == newest_first_of(front));

    lemma_order_of_ordered_front(front, back);
}

} // verus!
