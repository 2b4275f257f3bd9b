//! Derived time aggregates: the total logged minutes and the entry count of
//! a task are never stored, they are recomputed from its time entries at
//! read time. Totals that would not fit a `u64` saturate at `u64::MAX`.

use vstd::prelude::*;

use crate::model::TimeEntry;

verus! {

/// The time entries belonging to task `id`, in store order.
pub open spec fn entries_for(s: Seq<TimeEntry>, id: Seq<char>) -> Seq<TimeEntry> {
    s.filter(|e: TimeEntry| e.task_id@ == id)
}

/// Appending one entry extends a task's entries exactly when it belongs
/// to the task.
pub proof fn lemma_entries_for_push(s: Seq<TimeEntry>, x: TimeEntry, id: Seq<char>)
    ensures
        entries_for(s.push(x), id) == (if x.task_id@ == id {
            entries_for(s, id).push(x)
        } else {
            entries_for(s, id)
        }),
{
    broadcast use Seq::lemma_filter_push;

}

/// Sum of the durations of a sequence of entries, as an unbounded integer.
pub open spec fn sum_minutes(s: Seq<TimeEntry>) -> int
    decreases s.len(),
{
    if s.len() == 0 {
        0
    } else {
        sum_minutes(s.drop_last()) + s.last().duration_minutes
    }
}

/// Total minutes logged against task `id`.
pub open spec fn task_total(s: Seq<TimeEntry>, id: Seq<char>) -> int {
    sum_minutes(entries_for(s, id))
}

/// Number of entries logged against task `id`.
pub open spec fn task_count(s: Seq<TimeEntry>, id: Seq<char>) -> int {
    entries_for(s, id).len() as int
}

/// Clamp an unbounded non-negative total into a `u64`.
pub open spec fn clamp64(n: int) -> u64 {
    if n <= u64::MAX { n as u64 } else { u64::MAX }
}

/// A sum of durations is never negative.
pub proof fn lemma_sum_nonneg(s: Seq<TimeEntry>)
    ensures
        sum_minutes(s) >= 0,
    decreases s.len(),
{
    if s.len() > 0 {
        lemma_sum_nonneg(s.drop_last());
    }
}

/// Appending one entry adds its duration to the sum.
pub proof fn lemma_sum_push(s: Seq<TimeEntry>, e: TimeEntry)
    ensures
        sum_minutes(s.push(e)) == sum_minutes(s) + e.duration_minutes,
{
    assert(s.push(e).drop_last() =~= s);
}

/// Saturating add of one duration onto a running total.
fn saturating_add(total: u64, d: u64) -> (r: u64)
    ensures
        r == clamp64(total + d),
{
    if total > u64::MAX - d {
        u64::MAX
    } else {
        total + d
    }
}

/// Compute the derived aggregates of task `id`: its clamped total minutes
/// and its exact entry count.
pub fn total_and_count(entries: &Vec<TimeEntry>, id: &String) -> (r: (u64, u64))
    ensures
        r.0 == clamp64(task_total(entries@, id@)),
        r.1 == task_count(entries@, id@),
{
    broadcast use vstd::seq_lib::group_filter_ensures;
    broadcast use Seq::lemma_filter_push;

    let mut total: u64 = 0;
    let mut count: u64 = 0;
    let mut i: usize = 0;
    assert(entries@.subrange(0, 0) =~= Seq::<TimeEntry>::empty());
    assert(entries_for(Seq::<TimeEntry>::empty(), id@) =~= Seq::<TimeEntry>::empty()) by {
        reveal(Seq::filter);
    }
    while i < entries.len()
        invariant
            i <= entries@.len(),
            total == clamp64(sum_minutes(entries_for(entries@.subrange(0, i as int), id@))),
            count == entries_for(entries@.subrange(0, i as int), id@).len(),
        decreases entries@.len() - i,
    {
        let ghost pre = entries@.subrange(0, i as int);
        let ghost fpre = entries_for(pre, id@);
        assert(entries@.subrange(0, i + 1) =~= pre.push(entries@[i as int]));
        let e = &entries[i];
        if e.task_id == *id {
            proof {
                let pred = |x: TimeEntry| x.task_id@ == id@;
                pre.lemma_filter_push(entries@[i as int], pred);
                assert(entries_for(pre.push(entries@[i as int]), id@) == fpre.push(
                    entries@[i as int],
                ));
                lemma_sum_push(fpre, entries@[i as int]);
                lemma_sum_nonneg(fpre);
                pre.lemma_filter_len(|x: TimeEntry| x.task_id@ == id@);
            }
            total = saturating_add(total, e.duration_minutes);
            count = count + 1;
        } else {
            proof {
                let pred = |x: TimeEntry| x.task_id@ == id@;
                pre.lemma_filter_push(entries@[i as int], pred);
                assert(entries_for(pre.push(entries@[i as int]), id@) == fpre);
            }
        }
        i = i + 1;
    }
    assert(entries@.subrange(0, entries@.len() as int) =~= entries@);
    (total, count)
}

} // verus!
