//! The task lifecycle: listing with derived aggregates, creation, partial
//! update, and cascading deletion (single and bulk).

use vstd::prelude::*;

use crate::aggregate::clamp64;
use crate::aggregate::task_count;
use crate::aggregate::task_total;
use crate::aggregate::total_and_count;
use crate::model::BulkDeleteRequest;
use crate::model::CreateTaskRequest;
use crate::model::OpError;
use crate::model::Task;
use crate::model::TimeEntry;
use crate::model::ActiveTimer;
use crate::model::UpdateTaskRequest;
use crate::model::clone_opt;
use crate::model::clone_task;
use crate::seqtools::lemma_filter_all;
use crate::seqtools::lemma_filter_compose;
use crate::seqtools::lemma_filter_keeps_unique;
use crate::seqtools::lemma_filter_subset;
use crate::store::Store;
use crate::store::has_task;
use crate::store::opt_view;
use crate::store::task_index;

verus! {

/// A task as `get_tasks` reports it: the stored record with its derived
/// aggregates filled in.
pub open spec fn annotate(t: Task, entries: Seq<TimeEntry>) -> Task {
    Task {
        total_minutes: clamp64(task_total(entries, t.id@)),
        entry_count: task_count(entries, t.id@) as u64,
        ..t
    }
}

/// What a freshly created task looks like: requested fields taken over,
/// description defaulted to empty, category to `General`, status `pending`,
/// no project, both instants set to `now`.
pub open spec fn created_task(t: Task, req: CreateTaskRequest, id: Seq<char>, now: u64) -> bool {
    &&& t.id@ == id
    &&& t.title@ == req.title@
    &&& t.description@ == (match req.description {
        Option::Some(d) => d@,
        Option::None => Seq::<char>::empty(),
    })
    &&& t.category@ == (match req.category {
        Option::Some(c) => c@,
        Option::None => "General"@,
    })
    &&& t.status@ == "pending"@
    &&& opt_view(t.start_date) == opt_view(req.start_date)
    &&& opt_view(t.due_date) == opt_view(req.due_date)
    &&& t.project_id is None
    &&& t.created_at == now
    &&& t.updated_at == now
    &&& t.total_minutes == 0
    &&& t.entry_count == 0
}

/// The new value of a text field under a partial update.
pub open spec fn text_after(old_value: String, req_field: Option<String>) -> Seq<char> {
    match req_field {
        Option::Some(s) => s@,
        Option::None => old_value@,
    }
}

/// The new value of a date field under a partial update: an empty string
/// normalizes to unset.
pub open spec fn date_after(old_value: Option<String>, req_field: Option<String>) -> Option<
    Seq<char>,
> {
    match req_field {
        Option::Some(d) => if d@.len() == 0 {
            Option::None
        } else {
            Option::Some(d@)
        },
        Option::None => opt_view(old_value),
    }
}

/// Whether the partial update carries any field at all.
pub open spec fn any_field_present(req: UpdateTaskRequest) -> bool {
    ||| req.title is Some
    ||| req.description is Some
    ||| req.category is Some
    ||| req.status is Some
    ||| req.start_date is Some
    ||| req.due_date is Some
}

/// How a stored task changes under a partial update: present fields are
/// taken over, dates are normalized, and `updated_at` is refreshed exactly
/// when some field was present.
pub open spec fn updated_fields(t0: Task, t1: Task, req: UpdateTaskRequest, now: u64) -> bool {
    &&& t1.id@ == t0.id@
    &&& t1.title@ == text_after(t0.title, req.title)
    &&& t1.description@ == text_after(t0.description, req.description)
    &&& t1.category@ == text_after(t0.category, req.category)
    &&& t1.status@ == text_after(t0.status, req.status)
    &&& opt_view(t1.start_date) == date_after(t0.start_date, req.start_date)
    &&& opt_view(t1.due_date) == date_after(t0.due_date, req.due_date)
    &&& opt_view(t1.project_id) == opt_view(t0.project_id)
    &&& t1.created_at == t0.created_at
    &&& t1.updated_at == (if any_field_present(req) {
        now
    } else {
        t0.updated_at
    })
    &&& t1.total_minutes == t0.total_minutes
    &&& t1.entry_count == t0.entry_count
}

/// `id` occurs in the list of keys.
pub open spec fn id_listed(ids: Seq<String>, id: Seq<char>) -> bool {
    exists|i: int| 0 <= i < ids.len() && ids[i]@ == id
}

/// List every task annotated with its derived total minutes and entry
/// count, ordered by `updated_at` descending.
pub fn get_tasks(store: &Store) -> (r: Vec<Task>)
    requires
        store.wf(),
    ensures
        r@.to_multiset() == store.tasks@.map_values(
            |t: Task| annotate(t, store.entries@),
        ).to_multiset(),
        forall|i: int, j: int| 0 <= i < j < r@.len() ==> r@[i].updated_at >= r@[j].updated_at,
{
    let mut annotated: Vec<Task> = Vec::new();
    let mut i: usize = 0;
    assert(annotated@ =~= store.tasks@.subrange(0, 0).map_values(
        |t: Task| annotate(t, store.entries@),
    ));
    while i < store.tasks.len()
        invariant
            i <= store.tasks@.len(),
            annotated@ == store.tasks@.subrange(0, i as int).map_values(
                |t: Task| annotate(t, store.entries@),
            ),
        decreases store.tasks@.len() - i,
    {
        let ghost pre = store.tasks@.subrange(0, i as int);
        let (tm, cnt) = total_and_count(&store.entries, &store.tasks[i].id);
        let mut t = clone_task(&store.tasks[i]);
        t.total_minutes = tm;
        t.entry_count = cnt;
        proof {
            let f = |t: Task| annotate(t, store.entries@);
            assert(t == f(store.tasks@[i as int]));
            assert(store.tasks@.subrange(0, i + 1) =~= pre.push(store.tasks@[i as int]));
            assert(pre.push(store.tasks@[i as int]).map_values(f) =~= pre.map_values(f).push(
                f(store.tasks@[i as int]),
            ));
        }
        annotated.push(t);
        i = i + 1;
    }
    assert(store.tasks@.subrange(0, store.tasks@.len() as int) =~= store.tasks@);
    sort_tasks_desc(annotated)
}

/// Sort tasks by `updated_at` descending (selection of a maximum each
/// round); the result is a reordering of the input.
fn sort_tasks_desc(v: Vec<Task>) -> (r: Vec<Task>)
    ensures
        r@.to_multiset() == v@.to_multiset(),
        forall|i: int, j: int| 0 <= i < j < r@.len() ==> r@[i].updated_at >= r@[j].updated_at,
{
    broadcast use vstd::seq_lib::group_to_multiset_ensures;
    broadcast use vstd::multiset::group_multiset_axioms;

    let mut rem = v;
    let mut out: Vec<Task> = Vec::new();
    proof {
        assert(out@.to_multiset().add(rem@.to_multiset()) =~= v@.to_multiset());
    }
    while rem.len() > 0
        invariant
            out@.to_multiset().add(rem@.to_multiset()) == v@.to_multiset(),
            forall|i: int, j: int|
                0 <= i < j < out@.len() ==> out@[i].updated_at >= out@[j].updated_at,
            forall|i: int, j: int|
                0 <= i < out@.len() && 0 <= j < rem@.len() ==> out@[i].updated_at
                    >= rem@[j].updated_at,
        decreases rem@.len(),
    {
        let mut best: usize = 0;
        let mut k: usize = 1;
        while k < rem.len()
            invariant
                best < rem@.len(),
                k <= rem@.len(),
                forall|j: int| 0 <= j < k ==> rem@[best as int].updated_at >= rem@[j].updated_at,
            decreases rem@.len() - k,
        {
            if rem[k].updated_at > rem[best].updated_at {
                best = k;
            }
            k = k + 1;
        }
        let ghost prev_out = out@;
        let ghost prev_rem = rem@;
        let t = rem.remove(best);
        out.push(t);
        proof {
            prev_rem.to_multiset_ensures();
            prev_out.to_multiset_ensures();
            assert(prev_rem.contains(t)) by {
                assert(prev_rem[best as int] == t);
            }
            assert(rem@.to_multiset() =~= prev_rem.to_multiset().remove(t));
            assert(out@.to_multiset() =~= prev_out.to_multiset().insert(t));
            assert(out@.to_multiset().add(rem@.to_multiset()) =~= v@.to_multiset());
            assert forall|i: int, j: int|
                0 <= i < out@.len() && 0 <= j < rem@.len() implies out@[i].updated_at
                >= rem@[j].updated_at by {
                if j < best {
                    assert(rem@[j] == prev_rem[j]);
                } else {
                    assert(rem@[j] == prev_rem[j + 1]);
                }
            }
        }
    }
    proof {
        assert(rem@ =~= Seq::<Task>::empty());
        assert(rem@.to_multiset() =~= vstd::multiset::Multiset::<Task>::empty()) by {
            rem@.to_multiset_ensures();
        }
        assert(out@.to_multiset() =~= v@.to_multiset());
    }
    out
}

/// Create a task from the request with the given fresh key and creation
/// instant. Fails with `Validation` on an empty title and with `Conflict`
/// on a key that is already taken.
pub fn create_task(store: &mut Store, req: &CreateTaskRequest, id: String, now: u64) -> (r: Result<
    Task,
    OpError,
>)
    requires
        old(store).wf(),
    ensures
        final(store).wf(),
        r is Ok <==> (req.title@.len() > 0 && !has_task(old(store).tasks@, id@)),
        (match r {
            Result::Ok(t) => {
                &&& created_task(t, *req, id@, now)
                &&& final(store).tasks@ == old(store).tasks@.push(t)
                &&& final(store).entries@ == old(store).entries@
                &&& final(store).timers@ == old(store).timers@
                &&& final(store).users@ == old(store).users@
                &&& final(store).projects@ == old(store).projects@
            },
            Result::Err(e) => {
                &&& *final(store) == *old(store)
                &&& e == (if req.title@.len() == 0 {
                    OpError::Validation
                } else {
                    OpError::Conflict
                })
            },
        }),
{
    if req.title.as_str().is_empty() {
        return Result::Err(OpError::Validation);
    }
    match store.task_pos(&id) {
        Option::Some(i) => {
            proof {
                assert(has_task(old(store).tasks@, id@));
            }
            Result::Err(OpError::Conflict)
        },
        Option::None => {
            let t = Task {
                id,
                title: req.title.clone(),
                description: match &req.description {
                    Option::Some(d) => d.clone(),
                    Option::None => String::new(),
                },
                category: match &req.category {
                    Option::Some(c) => c.clone(),
                    Option::None => "General".to_owned(),
                },
                status: "pending".to_owned(),
                start_date: clone_opt(&req.start_date),
                due_date: clone_opt(&req.due_date),
                project_id: Option::None,
                created_at: now,
                updated_at: now,
                total_minutes: 0,
                entry_count: 0,
            };
            let ghost old_tasks = store.tasks@;
            store.tasks.push(clone_task(&t));
            proof {
                assert forall|x: int|
                    0 <= x < store.timers@.len() implies has_task(
                    store.tasks@,
                    #[trigger] store.timers@[x].task_id@,
                ) by {
                    let w = choose|w: int|
                        0 <= w < old_tasks.len() && old_tasks[w].id@ == store.timers@[x].task_id@;
                    assert(store.tasks@[w].id@ == store.timers@[x].task_id@);
                }
                assert forall|x: int|
                    0 <= x < store.entries@.len() implies has_task(
                    store.tasks@,
                    #[trigger] store.entries@[x].task_id@,
                ) by {
                    let w = choose|w: int|
                        0 <= w < old_tasks.len() && old_tasks[w].id@ == store.entries@[x].task_id@;
                    assert(store.tasks@[w].id@ == store.entries@[x].task_id@);
                }
            }
            Result::Ok(t)
        },
    }
}

/// Apply a partial update to the task with key `id`, refreshing
/// `updated_at` when any field is present; return the task re-read with
/// fresh aggregates. Fails with `NotFound` when no such task exists.
pub fn update_task(store: &mut Store, id: &String, req: &UpdateTaskRequest, now: u64) -> (r: Result<
    Task,
    OpError,
>)
    requires
        old(store).wf(),
    ensures
        final(store).wf(),
        r is Ok <==> has_task(old(store).tasks@, id@),
        (match r {
            Result::Ok(t) => {
                let i = task_index(old(store).tasks@, id@);
                &&& final(store).tasks@.len() == old(store).tasks@.len()
                &&& forall|j: int|
                    0 <= j < old(store).tasks@.len() && j != i ==> final(store).tasks@[j] == old(
                        store,
                    ).tasks@[j]
                &&& updated_fields(old(store).tasks@[i], final(store).tasks@[i], *req, now)
                &&& t == annotate(final(store).tasks@[i], final(store).entries@)
                &&& final(store).entries@ == old(store).entries@
                &&& final(store).timers@ == old(store).timers@
                &&& final(store).users@ == old(store).users@
                &&& final(store).projects@ == old(store).projects@
            },
            Result::Err(e) => {
                &&& *final(store) == *old(store)
                &&& e == OpError::NotFound
            },
        }),
{
    match store.task_pos(id) {
        Option::None => Result::Err(OpError::NotFound),
        Option::Some(i) => {
            proof {
                assert(has_task(store.tasks@, id@));
                assert(task_index(store.tasks@, id@) == i) by {
                    let w = task_index(store.tasks@, id@);
                    if w != i {
                        assert(store.tasks@[w].id@ == store.tasks@[i as int].id@);
                    }
                }
            }
            let mut t1 = clone_task(&store.tasks[i]);
            let mut touched = false;
            if let Option::Some(x) = &req.title {
                t1.title = x.clone();
                touched = true;
            }
            if let Option::Some(x) = &req.description {
                t1.description = x.clone();
                touched = true;
            }
            if let Option::Some(x) = &req.category {
                t1.category = x.clone();
                touched = true;
            }
            if let Option::Some(x) = &req.status {
                t1.status = x.clone();
                touched = true;
            }
            if let Option::Some(x) = &req.start_date {
                t1.start_date = if x.as_str().is_empty() {
                    Option::None
                } else {
                    Option::Some(x.clone())
                };
                touched = true;
            }
            if let Option::Some(x) = &req.due_date {
                t1.due_date = if x.as_str().is_empty() {
                    Option::None
                } else {
                    Option::Some(x.clone())
                };
                touched = true;
            }
            if touched {
                t1.updated_at = now;
            }
            let ghost old_tasks = store.tasks@;
            store.tasks.remove(i);
            store.tasks.insert(i, clone_task(&t1));
            proof {
                assert(store.tasks@ =~= old_tasks.update(i as int, t1));
                assert forall|x: int|
                    0 <= x < store.timers@.len() implies has_task(
                    store.tasks@,
                    #[trigger] store.timers@[x].task_id@,
                ) by {
                    let w = choose|w: int|
                        0 <= w < old_tasks.len() && old_tasks[w].id@ == store.timers@[x].task_id@;
                    assert(store.tasks@[w].id@ == store.timers@[x].task_id@);
                }
                assert forall|x: int|
                    0 <= x < store.entries@.len() implies has_task(
                    store.tasks@,
                    #[trigger] store.entries@[x].task_id@,
                ) by {
                    let w = choose|w: int|
                        0 <= w < old_tasks.len() && old_tasks[w].id@ == store.entries@[x].task_id@;
                    assert(store.tasks@[w].id@ == store.entries@[x].task_id@);
                }
            }
            let (tm, cnt) = total_and_count(&store.entries, id);
            let mut rt = t1;
            rt.total_minutes = tm;
            rt.entry_count = cnt;
            Result::Ok(rt)
        },
    }
}

/// The tasks of `v` whose key is not `id`.
fn keep_tasks_not(v: &Vec<Task>, id: &String) -> (r: Vec<Task>)
    ensures
        r@ == v@.filter(|t: Task| t.id@ != id@),
{
    let mut out: Vec<Task> = Vec::new();
    let mut i: usize = 0;
    proof {
        reveal(Seq::filter);
        assert(out@ =~= v@.subrange(0, 0).filter(|t: Task| t.id@ != id@));
    }
    while i < v.len()
        invariant
            i <= v@.len(),
            out@ == v@.subrange(0, i as int).filter(|t: Task| t.id@ != id@),
        decreases v@.len() - i,
    {
        let ghost pre = v@.subrange(0, i as int);
        proof {
            assert(v@.subrange(0, i + 1) =~= pre.push(v@[i as int]));
            pre.lemma_filter_push(v@[i as int], |t: Task| t.id@ != id@);
        }
        if !(v[i].id == *id) {
            out.push(clone_task(&v[i]));
        }
        i = i + 1;
    }
    assert(v@.subrange(0, v@.len() as int) =~= v@);
    out
}

/// The entries of `v` whose task key is not `id`.
fn keep_entries_not(v: &Vec<TimeEntry>, id: &String) -> (r: Vec<TimeEntry>)
    ensures
        r@ == v@.filter(|e: TimeEntry| e.task_id@ != id@),
{
    let mut out: Vec<TimeEntry> = Vec::new();
    let mut i: usize = 0;
    proof {
        reveal(Seq::filter);
        assert(out@ =~= v@.subrange(0, 0).filter(|e: TimeEntry| e.task_id@ != id@));
    }
    while i < v.len()
        invariant
            i <= v@.len(),
            out@ == v@.subrange(0, i as int).filter(|e: TimeEntry| e.task_id@ != id@),
        decreases v@.len() - i,
    {
        let ghost pre = v@.subrange(0, i as int);
        proof {
            assert(v@.subrange(0, i + 1) =~= pre.push(v@[i as int]));
            pre.lemma_filter_push(v@[i as int], |e: TimeEntry| e.task_id@ != id@);
        }
        if !(v[i].task_id == *id) {
            out.push(crate::model::clone_entry(&v[i]));
        }
        i = i + 1;
    }
    assert(v@.subrange(0, v@.len() as int) =~= v@);
    out
}

/// The timers of `v` whose task key is not `id`.
fn keep_timers_not(v: &Vec<ActiveTimer>, id: &String) -> (r: Vec<ActiveTimer>)
    ensures
        r@ == v@.filter(|w: ActiveTimer| w.task_id@ != id@),
{
    let mut out: Vec<ActiveTimer> = Vec::new();
    let mut i: usize = 0;
    proof {
        reveal(Seq::filter);
        assert(out@ =~= v@.subrange(0, 0).filter(|w: ActiveTimer| w.task_id@ != id@));
    }
    while i < v.len()
        invariant
            i <= v@.len(),
            out@ == v@.subrange(0, i as int).filter(|w: ActiveTimer| w.task_id@ != id@),
        decreases v@.len() - i,
    {
        let ghost pre = v@.subrange(0, i as int);
        proof {
            assert(v@.subrange(0, i + 1) =~= pre.push(v@[i as int]));
            pre.lemma_filter_push(v@[i as int], |w: ActiveTimer| w.task_id@ != id@);
        }
        if !(v[i].task_id == *id) {
            out.push(crate::model::clone_timer(&v[i]));
        }
        i = i + 1;
    }
    assert(v@.subrange(0, v@.len() as int) =~= v@);
    out
}

/// Cascading delete of the task with key `id`: its active timer, its time
/// entries and the task itself are all removed; an unknown key is not an
/// error. Always succeeds.
pub fn delete_task(store: &mut Store, id: &String)
    requires
        old(store).wf(),
    ensures
        final(store).wf(),
        final(store).tasks@ == old(store).tasks@.filter(|t: Task| t.id@ != id@),
        final(store).entries@ == old(store).entries@.filter(|e: TimeEntry| e.task_id@ != id@),
        final(store).timers@ == old(store).timers@.filter(|w: ActiveTimer| w.task_id@ != id@),
        final(store).users@ == old(store).users@,
        final(store).projects@ == old(store).projects@,
{
    let new_timers = keep_timers_not(&store.timers, id);
    store.timers = new_timers;
    let new_entries = keep_entries_not(&store.entries, id);
    store.entries = new_entries;
    let new_tasks = keep_tasks_not(&store.tasks, id);
    store.tasks = new_tasks;
    proof {
        broadcast use vstd::seq_lib::group_filter_ensures;

        let pt = |t: Task| t.id@ != id@;
        let pe = |e: TimeEntry| e.task_id@ != id@;
        let pw = |w: ActiveTimer| w.task_id@ != id@;
        lemma_filter_keeps_unique(old(store).tasks@, pt, |t: Task| t.id@);
        lemma_filter_keeps_unique(old(store).entries@, pe, |e: TimeEntry| e.id@);
        lemma_filter_keeps_unique(old(store).timers@, pw, |w: ActiveTimer| w.id@);
        lemma_filter_keeps_unique(old(store).timers@, pw, |w: ActiveTimer| w.task_id@);
        lemma_filter_subset(old(store).entries@, pe);
        lemma_filter_subset(old(store).timers@, pw);
        assert forall|x: int|
            0 <= x < store.timers@.len() implies has_task(
            store.tasks@,
            #[trigger] store.timers@[x].task_id@,
        ) by {
            assert(store.timers@.contains(store.timers@[x]));
            assert(old(store).timers@.contains(store.timers@[x]));
            let w = choose|w: int|
                0 <= w < old(store).timers@.len() && old(store).timers@[w] == store.timers@[x];
            let k = choose|k: int|
                0 <= k < old(store).tasks@.len() && old(store).tasks@[k].id@
                    == store.timers@[x].task_id@;
            assert(pw(store.timers@[x]));
            assert(pt(old(store).tasks@[k]));
            assert(store.tasks@.contains(old(store).tasks@[k]));
        }
        assert forall|x: int|
            0 <= x < store.entries@.len() implies has_task(
            store.tasks@,
            #[trigger] store.entries@[x].task_id@,
        ) by {
            assert(store.entries@.contains(store.entries@[x]));
            assert(old(store).entries@.contains(store.entries@[x]));
            let k = choose|k: int|
                0 <= k < old(store).tasks@.len() && old(store).tasks@[k].id@
                    == store.entries@[x].task_id@;
            assert(pe(store.entries@[x]));
            assert(pt(old(store).tasks@[k]));
            assert(store.tasks@.contains(old(store).tasks@[k]));
        }
    }
}

/// The tasks of `s` whose key is not listed in `ids`.
pub open spec fn tasks_not_listed(s: Seq<Task>, ids: Seq<String>) -> Seq<Task> {
    s.filter(|t: Task| !id_listed(ids, t.id@))
}

/// The entries of `s` whose task key is not listed in `ids`.
pub open spec fn entries_not_listed(s: Seq<TimeEntry>, ids: Seq<String>) -> Seq<TimeEntry> {
    s.filter(|e: TimeEntry| !id_listed(ids, e.task_id@))
}

/// The timers of `s` whose task key is not listed in `ids`.
pub open spec fn timers_not_listed(s: Seq<ActiveTimer>, ids: Seq<String>) -> Seq<ActiveTimer> {
    s.filter(|w: ActiveTimer| !id_listed(ids, w.task_id@))
}

/// Apply the cascading delete to every key in the request; duplicates and
/// unknown keys are tolerated. Returns the number of keys processed.
pub fn delete_tasks_bulk(store: &mut Store, req: &BulkDeleteRequest) -> (r: usize)
    requires
        old(store).wf(),
    ensures
        final(store).wf(),
        r == req.ids@.len(),
        final(store).tasks@ == tasks_not_listed(old(store).tasks@, req.ids@),
        final(store).entries@ == entries_not_listed(old(store).entries@, req.ids@),
        final(store).timers@ == timers_not_listed(old(store).timers@, req.ids@),
        final(store).users@ == old(store).users@,
        final(store).projects@ == old(store).projects@,
{
    let ghost s0 = *old(store);
    let mut k: usize = 0;
    proof {
        let ghost none = req.ids@.subrange(0, 0);
        lemma_filter_all(s0.tasks@, |t: Task| !id_listed(none, t.id@));
        lemma_filter_all(s0.entries@, |e: TimeEntry| !id_listed(none, e.task_id@));
        lemma_filter_all(s0.timers@, |w: ActiveTimer| !id_listed(none, w.task_id@));
    }
    while k < req.ids.len()
        invariant
            old(store).wf(),
            store.wf(),
            k <= req.ids@.len(),
            s0 == *old(store),
            store.tasks@ == tasks_not_listed(s0.tasks@, req.ids@.subrange(0, k as int)),
            store.entries@ == entries_not_listed(s0.entries@, req.ids@.subrange(0, k as int)),
            store.timers@ == timers_not_listed(s0.timers@, req.ids@.subrange(0, k as int)),
            store.users@ == s0.users@,
            store.projects@ == s0.projects@,
        decreases req.ids@.len() - k,
    {
        let ghost ids_k: String = req.ids@[k as int];
        let ghost id_k = req.ids@[k as int]@;
        let ghost pre = req.ids@.subrange(0, k as int);
        let ghost post = req.ids@.subrange(0, k as int + 1);
        let ghost before = store.tasks@;
        delete_task(store, &req.ids[k]);
        proof {
            assert(store.tasks@ == before.filter(|t: Task| t.id@ != ids_k@));
            assert(before == s0.tasks@.filter(|t: Task| !id_listed(pre, t.id@)));
            assert(post =~= pre.push(req.ids@[k as int]));
            assert forall|id: Seq<char>| #[trigger]
                id_listed(post, id) == (id_listed(pre, id) || id_k == id) by {
                if id_listed(post, id) {
                    let w = choose|w: int| 0 <= w < post.len() && post[w]@ == id;
                    if w < k {
                        assert(pre[w]@ == id);
                    }
                }
                if id_listed(pre, id) {
                    let w = choose|w: int| 0 <= w < pre.len() && pre[w]@ == id;
                    assert(post[w]@ == id);
                }
                if id_k == id {
                    assert(post[k as int]@ == id);
                }
            }
            assert(store.tasks@ == s0.tasks@.filter(|t: Task| !id_listed(pre, t.id@)).filter(
                |t: Task| t.id@ != ids_k@,
            ));
            lemma_filter_compose(
                s0.tasks@,
                |t: Task| !id_listed(pre, t.id@),
                |t: Task| t.id@ != ids_k@,
                |t: Task| !id_listed(post, t.id@),
            );
            assert(store.tasks@ == s0.tasks@.filter(|t: Task| !id_listed(post, t.id@)));
            assert(store.tasks@ == tasks_not_listed(s0.tasks@, post));
            lemma_filter_compose(
                s0.entries@,
                |e: TimeEntry| !id_listed(pre, e.task_id@),
                |e: TimeEntry| e.task_id@ != ids_k@,
                |e: TimeEntry| !id_listed(post, e.task_id@),
            );
            lemma_filter_compose(
                s0.timers@,
                |w: ActiveTimer| !id_listed(pre, w.task_id@),
                |w: ActiveTimer| w.task_id@ != ids_k@,
                |w: ActiveTimer| !id_listed(post, w.task_id@),
            );
        }
        k = k + 1;
    }
    assert(req.ids@.subrange(0, req.ids@.len() as int) =~= req.ids@);
    req.ids.len()
}

} // verus!
