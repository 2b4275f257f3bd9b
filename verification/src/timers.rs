//! The timer lifecycle: a task has at most one active timer; starting a
//! second one is a conflict, and stopping a timer atomically converts it
//! into one immutable time entry.
//!
//! Elapsed seconds convert to minutes by rounding half-up: 90 seconds log
//! as 2 minutes, 89 as 1. A stop instant before the start instant (clock
//! skew) clamps to 0 minutes.

use vstd::prelude::*;

use crate::model::ActiveTimer;
use crate::model::OpError;
use crate::model::StartTimerRequest;
use crate::model::TimeEntry;
use crate::store::Store;
use crate::store::has_entry_id;
use crate::store::has_task;
use crate::store::has_timer;
use crate::store::has_timer_id;
use crate::store::task_index;
use crate::store::timer_index;

verus! {

/// Whole minutes between two instants in seconds, rounded half-up and
/// clamped at zero.
pub open spec fn round_minutes(start: u64, now: u64) -> int {
    if now <= start {
        0
    } else {
        (now - start) / 60 + (if (now - start) % 60 >= 30 {
            1int
        } else {
            0int
        })
    }
}

/// What a freshly started timer looks like.
pub open spec fn started_timer(
    w: ActiveTimer,
    task_id: Seq<char>,
    task_title: Seq<char>,
    req: StartTimerRequest,
    id: Seq<char>,
    now: u64,
) -> bool {
    &&& w.id@ == id
    &&& w.task_id@ == task_id
    &&& w.task_title@ == task_title
    &&& w.start_time == now
    &&& w.notes@ == (match req.notes {
        Option::Some(n) => n@,
        Option::None => Seq::<char>::empty(),
    })
    &&& w.elapsed_seconds == 0
    &&& w.created_at == now
}

/// The time entry that stopping timer `w` at instant `now` produces.
pub open spec fn stopped_entry(
    e: TimeEntry,
    w: ActiveTimer,
    user_id: Seq<char>,
    entry_id: Seq<char>,
    now: u64,
) -> bool {
    &&& e.id@ == entry_id
    &&& e.task_id@ == w.task_id@
    &&& e.user_id@ == user_id
    &&& e.start_time == w.start_time
    &&& e.end_time == Option::<u64>::Some(now)
    &&& e.duration_minutes == round_minutes(w.start_time, now)
    &&& e.notes@ == w.notes@
    &&& e.created_at == now
}

/// Whether some timer in `v` has primary key `id`.
fn timer_id_taken(v: &Vec<ActiveTimer>, id: &String) -> (r: bool)
    ensures
        r == has_timer_id(v@, id@),
{
    let mut i: usize = 0;
    while i < v.len()
        invariant
            i <= v@.len(),
            forall|j: int| 0 <= j < i ==> v@[j].id@ != id@,
        decreases v@.len() - i,
    {
        if v[i].id == *id {
            return true;
        }
        i = i + 1;
    }
    false
}

/// Whether some entry in `v` has primary key `id`.
fn entry_id_taken(v: &Vec<TimeEntry>, id: &String) -> (r: bool)
    ensures
        r == has_entry_id(v@, id@),
{
    let mut i: usize = 0;
    while i < v.len()
        invariant
            i <= v@.len(),
            forall|j: int| 0 <= j < i ==> v@[j].id@ != id@,
        decreases v@.len() - i,
    {
        if v[i].id == *id {
            return true;
        }
        i = i + 1;
    }
    false
}

/// Start a timer for the task with key `task_id`, using the fresh timer key
/// `id` and start instant `now`. Fails with `NotFound` when the task does
/// not exist and with `Conflict` when the task already has an active timer
/// (or the timer key is taken).
pub fn start_timer(
    store: &mut Store,
    task_id: &String,
    req: &StartTimerRequest,
    id: String,
    now: u64,
) -> (r: Result<ActiveTimer, OpError>)
    requires
        old(store).wf(),
    ensures
        final(store).wf(),
        r is Ok <==> (has_task(old(store).tasks@, task_id@) && !has_timer(
            old(store).timers@,
            task_id@,
        ) && !has_timer_id(old(store).timers@, id@)),
        (match r {
            Result::Ok(w) => {
                &&& started_timer(
                    w,
                    task_id@,
                    old(store).tasks@[task_index(old(store).tasks@, task_id@)].title@,
                    *req,
                    id@,
                    now,
                )
                &&& final(store).timers@ == old(store).timers@.push(w)
                &&& final(store).tasks@ == old(store).tasks@
                &&& final(store).entries@ == old(store).entries@
                &&& final(store).users@ == old(store).users@
                &&& final(store).projects@ == old(store).projects@
            },
            Result::Err(e) => {
                &&& *final(store) == *old(store)
                &&& e == (if !has_task(old(store).tasks@, task_id@) {
                    OpError::NotFound
                } else {
                    OpError::Conflict
                })
            },
        }),
{
    let ti = match store.task_pos(task_id) {
        Option::None => {
            return Result::Err(OpError::NotFound);
        },
        Option::Some(ti) => ti,
    };
    proof {
        assert(has_task(store.tasks@, task_id@));
    }
    if let Option::Some(_existing) = store.timer_pos(task_id) {
        return Result::Err(OpError::Conflict);
    }
    if timer_id_taken(&store.timers, &id) {
        return Result::Err(OpError::Conflict);
    }
    let w = ActiveTimer {
        id,
        task_id: task_id.clone(),
        task_title: store.tasks[ti].title.clone(),
        start_time: now,
        notes: match &req.notes {
            Option::Some(n) => n.clone(),
            Option::None => String::new(),
        },
        elapsed_seconds: 0,
        created_at: now,
    };
    let ghost old_timers = store.timers@;
    store.timers.push(crate::model::clone_timer(&w));
    proof {
        assert(task_index(old(store).tasks@, task_id@) == ti) by {
            let x = task_index(old(store).tasks@, task_id@);
            if x != ti {
                assert(old(store).tasks@[x].id@ == old(store).tasks@[ti as int].id@);
            }
        }
        assert forall|x: int|
            0 <= x < store.timers@.len() implies has_task(
            store.tasks@,
            #[trigger] store.timers@[x].task_id@,
        ) by {
            if x < old_timers.len() {
                assert(store.timers@[x] == old_timers[x]);
            } else {
                assert(store.timers@[x].task_id@ == store.tasks@[ti as int].id@);
            }
        }
    }
    Result::Ok(w)
}

/// Stop the active timer of the task with key `task_id` at instant `now`,
/// logging the resulting entry under the fresh key `entry_id` for the
/// calling user. The timer is removed and the entry inserted as one
/// transition. Fails with `NotFound` when the task has no active timer.
pub fn stop_timer(
    store: &mut Store,
    task_id: &String,
    user_id: &String,
    entry_id: String,
    now: u64,
) -> (r: Result<TimeEntry, OpError>)
    requires
        old(store).wf(),
    ensures
        final(store).wf(),
        r is Ok <==> (has_timer(old(store).timers@, task_id@) && !has_entry_id(
            old(store).entries@,
            entry_id@,
        )),
        (match r {
            Result::Ok(e) => {
                &&& stopped_entry(
                    e,
                    old(store).timers@[timer_index(old(store).timers@, task_id@)],
                    user_id@,
                    entry_id@,
                    now,
                )
                &&& final(store).entries@ == old(store).entries@.push(e)
                &&& final(store).timers@ == old(store).timers@.remove(
                    timer_index(old(store).timers@, task_id@),
                )
                &&& final(store).tasks@ == old(store).tasks@
                &&& final(store).users@ == old(store).users@
                &&& final(store).projects@ == old(store).projects@
            },
            Result::Err(e) => {
                &&& *final(store) == *old(store)
                &&& e == (if !has_timer(old(store).timers@, task_id@) {
                    OpError::NotFound
                } else {
                    OpError::Conflict
                })
            },
        }),
{
    let wi = match store.timer_pos(task_id) {
        Option::None => {
            return Result::Err(OpError::NotFound);
        },
        Option::Some(wi) => wi,
    };
    proof {
        assert(has_timer(store.timers@, task_id@));
    }
    if entry_id_taken(&store.entries, &entry_id) {
        return Result::Err(OpError::Conflict);
    }
    proof {
        assert(timer_index(old(store).timers@, task_id@) == wi) by {
            let x = timer_index(old(store).timers@, task_id@);
            if x != wi {
                assert(old(store).timers@[x].task_id@ == old(store).timers@[wi as int].task_id@);
            }
        }
    }
    let duration: u64 = if now <= store.timers[wi].start_time {
        0
    } else {
        let d = now - store.timers[wi].start_time;
        d / 60 + (if d % 60 >= 30 {
            1
        } else {
            0
        })
    };
    let e = TimeEntry {
        id: entry_id,
        task_id: store.timers[wi].task_id.clone(),
        user_id: user_id.clone(),
        start_time: store.timers[wi].start_time,
        end_time: Option::Some(now),
        duration_minutes: duration,
        notes: store.timers[wi].notes.clone(),
        created_at: now,
    };
    let ghost old_timers = store.timers@;
    let ghost old_entries = store.entries@;
    let _removed = store.timers.remove(wi);
    store.entries.push(crate::model::clone_entry(&e));
    proof {
        old_timers.remove_ensures(wi as int);
        assert forall|i: int, j: int|
            0 <= i < j < store.timers@.len() implies store.timers@[i].id@
            != store.timers@[j].id@ by {
            let oi: int = if i < wi {
                i
            } else {
                i + 1
            };
            let oj: int = if j < wi {
                j
            } else {
                j + 1
            };
            assert(store.timers@[i] == old_timers[oi]);
            assert(store.timers@[j] == old_timers[oj]);
        }
        assert forall|i: int, j: int|
            0 <= i < j < store.timers@.len() implies store.timers@[i].task_id@
            != store.timers@[j].task_id@ by {
            let oi: int = if i < wi {
                i
            } else {
                i + 1
            };
            let oj: int = if j < wi {
                j
            } else {
                j + 1
            };
            assert(store.timers@[i] == old_timers[oi]);
            assert(store.timers@[j] == old_timers[oj]);
        }
        assert forall|x: int|
            0 <= x < store.timers@.len() implies has_task(
            store.tasks@,
            #[trigger] store.timers@[x].task_id@,
        ) by {
            let ox: int = if x < wi {
                x
            } else {
                x + 1
            };
            assert(store.timers@[x] == old_timers[ox]);
        }
        assert forall|x: int|
            0 <= x < store.entries@.len() implies has_task(
            store.tasks@,
            #[trigger] store.entries@[x].task_id@,
        ) by {
            if x < old_entries.len() {
                assert(store.entries@[x] == old_entries[x]);
            } else {
                assert(store.entries@[x].task_id@ == old_timers[wi as int].task_id@);
            }
        }
    }
    Result::Ok(e)
}

} // verus!
