//! Merging activities: one entry for each id, the newest first.

use crate::activity_cache::merge_laws::{
    lemma_merge_holds_each_id_once, lemma_merge_newest_first, lemma_newest_first_of,
    lemma_newest_first_of_ids, lemma_place_index_unique, lemma_place_is_insert,
};
use crate::text::{lex_le, str_eq, str_le};
use crate::types::activity::{activity_views, Activity, ActivityView};
use vstd::prelude::*;

verus! {

/// Some entry of `s` has the id `id`.
pub open spec fn holds_id(s: Seq<ActivityView>, id: Seq<char>) -> bool {
    exists|i: int| 0 <= i < s.len() && #[trigger] s[i].id == id
}

/// No two entries of `s` have the same id.
pub open spec fn distinct_ids(s: Seq<ActivityView>) -> bool {
    forall|i: int, j: int| 0 <= i < j < s.len() ==> #[trigger] s[i].id != #[trigger] s[j].id
}

/// The creation times of `s` never rise: each entry is at least as new as
/// those behind it, in the order of strings.
pub open spec fn newest_first(s: Seq<ActivityView>) -> bool {
    forall|i: int, j: int|
        0 <= i < j < s.len() ==> lex_le(#[trigger] s[j].create_time, #[trigger] s[i].create_time)
}

/// For each id in `s`, the last entry of `s` that has it.
pub open spec fn latest_by_id(s: Seq<ActivityView>) -> Map<Seq<char>, ActivityView>
    decreases s.len(),
{
    if s.len() == 0 {
        Map::empty()
    } else {
        latest_by_id(s.drop_last()).insert(s.last().id, s.last())
    }
}

/// `s` with `x` put in front of its first entry that is not newer than `x`.
pub open spec fn place(x: ActivityView, s: Seq<ActivityView>) -> Seq<ActivityView>
    decreases s.len(),
{
    if s.len() == 0 || lex_le(s[0].create_time, x.create_time) {
        seq![x] + s
    } else {
        seq![s[0]] + place(x, s.drop_first())
    }
}

/// The entries of `s`, the newest first; entries of one creation time stay
/// in the order they have in `s`.
pub open spec fn newest_first_of(s: Seq<ActivityView>) -> Seq<ActivityView>
    decreases s.len(),
{
    if s.len() == 0 {
        Seq::empty()
    } else {
        place(s[0], newest_first_of(s.drop_first()))
    }
}

/// The entries of `s` without those whose id comes again further back.
pub open spec fn last_of_each_id(s: Seq<ActivityView>) -> Seq<ActivityView>
    decreases s.len(),
{
    if s.len() == 0 {
        Seq::empty()
    } else {
        let rest = last_of_each_id(s.drop_first());
        if holds_id(rest, s[0].id) {
            rest
        } else {
            seq![s[0]] + rest
        }
    }
}

/// What merging `incoming` into `existing` gives: for each id the last entry
/// that has it, `incoming` counted behind `existing`, the newest first.
pub open spec fn merge_of(existing: Seq<ActivityView>, incoming: Seq<ActivityView>) -> Seq<
    ActivityView,
> {
    newest_first_of(last_of_each_id(existing + incoming))
}

/// The index in `s` of the first entry that is not newer than `x`, or the
/// length of `s` where every entry is newer.
pub open spec fn place_index(x: ActivityView, s: Seq<ActivityView>) -> int
    decreases s.len(),
{
    if s.len() == 0 || lex_le(s[0].create_time, x.create_time) {
        0
    } else {
        1 + place_index(x, s.drop_first())
    }
}

/// Whether an entry of `list` has the id `id`.
fn has_id(list: &Vec<Activity>, id: &str) -> (r: bool)
    ensures
        r == holds_id(activity_views(list@), id@),
{
    let mut i: usize = 0;
    while i < list.len()
        invariant
            i <= list.len(),
            forall|j: int| 0 <= j < i ==> (#[trigger] activity_views(list@)[j]).id != id@,
        decreases list.len() - i,
    {
        if str_eq(list[i].id.as_str(), id) {
            assert(activity_views(list@)[i as int].id == id@);
            return true;
        }
        i = i + 1;
    }
    false
}

/// Puts `x` into `merged` in front of its first entry that is not newer.
fn insert_newest_first(merged: &mut Vec<Activity>, x: Activity)
    ensures
        activity_views(final(merged)@) == place(x@, activity_views(old(merged)@)),
{
    let ghost before = activity_views(merged@);
    let mut p: usize = 0;
    let mut found = false;
    while p < merged.len() && !found
        invariant
            p <= merged.len(),
            before == activity_views(merged@),
            forall|i: int| 0 <= i < p ==> !lex_le(#[trigger] before[i].create_time, x@.create_time),
            found ==> p < merged.len() && lex_le(before[p as int].create_time, x@.create_time),
        decreases merged.len() - p + (if found { 0int } else { 1int }),
    {
        if str_le(merged[p].create_time.as_str(), x.create_time.as_str()) {
            found = true;
        } else {
            p = p + 1;
        }
    }
    proof {
        lemma_place_index_unique(x@, before, p as int);
        lemma_place_is_insert(x@, before);
    }
    merged.insert(p, x);
    proof {
        assert(activity_views(merged@) =~= before.insert(p as int, x@));
    }
}

/// The activities of `list`, the newest first; activities of one creation
/// time stay in the order they have in `list`.
pub fn sort_newest_first(list: Vec<Activity>) -> (sorted: Vec<Activity>)
    ensures
        activity_views(sorted@) == newest_first_of(activity_views(list@)),
        newest_first(activity_views(sorted@)),
        activity_views(sorted@).to_multiset() == activity_views(list@).to_multiset(),
        sorted.len() == list.len(),
{
    let ghost all = activity_views(list@);
    let mut list = list;
    let mut sorted: Vec<Activity> = Vec::new();
    proof {
        assert(all.skip(all.len() as int) =~= Seq::<ActivityView>::empty());
        assert(activity_views(sorted@) =~= Seq::<ActivityView>::empty());
    }
    while list.len() > 0
        invariant
            list.len() <= all.len(),
            activity_views(list@) == all.take(list.len() as int),
            activity_views(sorted@) == newest_first_of(all.skip(list.len() as int)),
        decreases list.len(),
    {
        let ghost k = list.len() as int;
        let x = list.pop().unwrap();
        proof {
            assert(x@ == all.take(k)[k - 1]);
            assert(activity_views(list@) =~= all.take(k - 1));
            assert(all.skip(k - 1)[0] == x@);
            assert(all.skip(k - 1).drop_first() =~= all.skip(k));
        }
        insert_newest_first(&mut sorted, x);
    }
    proof {
        assert(all.skip(0) =~= all);
        lemma_newest_first_of(all);
    }
    sorted
}

/// Merges `source` into `merged`, in front of what `merged` holds already.
fn absorb(merged: &mut Vec<Activity>, source: Vec<Activity>, Ghost(behind): Ghost<Seq<ActivityView>>)
    requires
        activity_views(old(merged)@) == newest_first_of(last_of_each_id(behind)),
    ensures
        activity_views(final(merged)@) == newest_first_of(
            last_of_each_id(activity_views(source@) + behind),
        ),
{
    let ghost all = activity_views(source@);
    let mut source = source;
    while source.len() > 0
        invariant
            source.len() <= all.len(),
            activity_views(source@) == all.take(source.len() as int),
            activity_views(merged@) == newest_first_of(
                last_of_each_id(all.skip(source.len() as int) + behind),
            ),
        decreases source.len(),
    {
        let ghost k = source.len() as int;
        let ghost done = all.skip(k) + behind;
        let ghost kept = last_of_each_id(done);
        let x = source.pop().unwrap();
        proof {
            assert(x@ == all.take(k)[k - 1]);
            assert(activity_views(source@) =~= all.take(k - 1));
            let next = all.skip(k - 1) + behind;
            assert(next[0] == x@);
            assert(next.drop_first() =~= done);
            lemma_newest_first_of_ids(kept, x@.id);
        }
        if !has_id(merged, x.id.as_str()) {
            proof {
                assert((seq![x@] + kept).drop_first() =~= kept);
            }
            insert_newest_first(merged, x);
        }
    }
    proof {
        assert(all.skip(0) =~= all);
    }
}

/// Merges `new_activities` into `existing`: of the entries with one id the
/// last stays, those of `new_activities` counted behind those of `existing`,
/// and what stays is ordered by creation time, the newest first.
pub fn merge_activities(existing: Vec<Activity>, new_activities: Vec<Activity>) -> (merged: Vec<
    Activity,
>)
    ensures
        activity_views(merged@) == merge_of(
            activity_views(existing@),
            activity_views(new_activities@),
        ),
        distinct_ids(activity_views(merged@)),
        newest_first(activity_views(merged@)),
        latest_by_id(activity_views(merged@)) == latest_by_id(
            activity_views(existing@),
        ).union_prefer_right(latest_by_id(activity_views(new_activities@))),
        merged.len() <= existing.len() + new_activities.len(),
{
    let mut merged: Vec<Activity> = Vec::new();
    proof {
        assert(activity_views(merged@) =~= Seq::<ActivityView>::empty());
    }
    let ghost incoming = activity_views(new_activities@);
    absorb(&mut merged, new_activities, Ghost(Seq::empty()));
    proof {
        assert(incoming + Seq::<ActivityView>::empty() =~= incoming);
    }
    let ghost older = activity_views(existing@);
    absorb(&mut merged, existing, Ghost(incoming));
    proof {
        lemma_merge_holds_each_id_once(older, incoming);
        lemma_merge_newest_first(older, incoming);
    }
    merged
}

} // verus!
