//! The time report: total minutes per user and per project, over the chain
//! time entry, then owning task, then the task's project. A task whose
//! project key resolves to no stored project counts as project-less. A
//! visible user with no entries at all still gets one project-less row with
//! zero minutes. Row visibility mirrors the user-listing rule: a superadmin
//! sees every user, an admin only plain users.

use vstd::prelude::*;

use crate::aggregate::clamp64;
use crate::aggregate::lemma_sum_nonneg;
use crate::aggregate::lemma_sum_push;
use crate::aggregate::sum_minutes;
use crate::model::OpError;
use crate::model::Role;
use crate::model::TimeEntry;
use crate::model::TimeReportRow;
use crate::model::User;
use crate::model::clone_user;
use crate::store::Store;
use crate::store::has_project;
use crate::store::has_task;
use crate::store::opt_view;
use crate::store::project_index;
use crate::store::task_index;

verus! {

/// The project a task key resolves to for report grouping: none when the
/// task is missing, has no project, or names a project that is not stored.
pub open spec fn key_of(
    tasks: Seq<crate::model::Task>,
    projects: Seq<crate::model::Project>,
    task_id: Seq<char>,
) -> Option<Seq<char>> {
    if !has_task(tasks, task_id) {
        Option::None
    } else {
        match tasks[task_index(tasks, task_id)].project_id {
            Option::None => Option::None,
            Option::Some(pid) => if has_project(projects, pid@) {
                Option::Some(pid@)
            } else {
                Option::None
            },
        }
    }
}

/// Total minutes user `uid` logged under project key `key`.
#[verifier::opaque]
pub open spec fn group_entries(
    entries: Seq<TimeEntry>,
    tasks: Seq<crate::model::Task>,
    projects: Seq<crate::model::Project>,
    uid: Seq<char>,
    key: Option<Seq<char>>,
) -> Seq<TimeEntry>
    decreases entries.len(),
{
    if entries.len() == 0 {
        Seq::<TimeEntry>::empty()
    } else {
        let rest = group_entries(entries.drop_last(), tasks, projects, uid, key);
        if entries.last().user_id@ == uid && key_of(tasks, projects, entries.last().task_id@)
            == key {
            rest.push(entries.last())
        } else {
            rest
        }
    }
}

pub open spec fn group_sum(
    entries: Seq<TimeEntry>,
    tasks: Seq<crate::model::Task>,
    projects: Seq<crate::model::Project>,
    uid: Seq<char>,
    key: Option<Seq<char>>,
) -> int {
    sum_minutes(group_entries(entries, tasks, projects, uid, key))
}

/// No entries grouped out of an empty sequence.
pub proof fn lemma_group_empty(
    tasks: Seq<crate::model::Task>,
    projects: Seq<crate::model::Project>,
    uid: Seq<char>,
    key: Option<Seq<char>>,
)
    ensures
        group_entries(Seq::<TimeEntry>::empty(), tasks, projects, uid, key) == Seq::<
            TimeEntry,
        >::empty(),
{
    reveal(group_entries);
    assert(group_entries(Seq::<TimeEntry>::empty(), tasks, projects, uid, key) =~= Seq::<
        TimeEntry,
    >::empty());
}

/// Appending one entry extends the group exactly when the entry belongs to
/// the user and resolves to the key.
pub proof fn lemma_group_push(
    s: Seq<TimeEntry>,
    x: TimeEntry,
    tasks: Seq<crate::model::Task>,
    projects: Seq<crate::model::Project>,
    uid: Seq<char>,
    key: Option<Seq<char>>,
)
    ensures
        group_entries(s.push(x), tasks, projects, uid, key) == (if x.user_id@ == uid && key_of(
            tasks,
            projects,
            x.task_id@,
        ) == key {
            group_entries(s, tasks, projects, uid, key).push(x)
        } else {
            group_entries(s, tasks, projects, uid, key)
        }),
{
    reveal(group_entries);
    assert(s.push(x).drop_last() =~= s);
    assert(s.push(x).last() == x);
}

/// A user with no entries at all has an empty group under every key.
pub proof fn lemma_group_none(
    entries: Seq<TimeEntry>,
    tasks: Seq<crate::model::Task>,
    projects: Seq<crate::model::Project>,
    uid: Seq<char>,
    key: Option<Seq<char>>,
)
    requires
        forall|i: int| 0 <= i < entries.len() ==> (#[trigger] entries[i].user_id@) != uid,
    ensures
        group_entries(entries, tasks, projects, uid, key) == Seq::<TimeEntry>::empty(),
    decreases entries.len(),
{
    reveal(group_entries);
    if entries.len() > 0 {
        let rest = entries.drop_last();
        assert(forall|i: int| 0 <= i < rest.len() ==> rest[i] == entries[i]);
        lemma_group_none(rest, tasks, projects, uid, key);
        assert(entries.last() == entries[entries.len() - 1]);
    }
}

/// Whether the caller's role lets a user row into the report.
pub open spec fn in_scope(u: User, caller: Role) -> bool {
    caller == Role::Superadmin || u.role == Role::User
}

/// User `uid` has at least one time entry.
pub open spec fn user_has_entries(entries: Seq<TimeEntry>, uid: Seq<char>) -> bool {
    exists|i: int| 0 <= i < entries.len() && entries[i].user_id@ == uid
}

/// Some entry of user `uid` resolves to project key `key`.
pub open spec fn key_used(
    entries: Seq<TimeEntry>,
    tasks: Seq<crate::model::Task>,
    projects: Seq<crate::model::Project>,
    uid: Seq<char>,
    key: Option<Seq<char>>,
) -> bool {
    exists|i: int|
        0 <= i < entries.len() && entries[i].user_id@ == uid && key_of(
            tasks,
            projects,
            entries[i].task_id@,
        ) == key
}

/// The one row the report owes to user `u` and project key `key`.
pub open spec fn row_for(s: Store, u: User, key: Option<Seq<char>>, row: TimeReportRow) -> bool {
    &&& row.user_id@ == u.id@
    &&& row.username@ == u.username@
    &&& row.full_name@ == u.full_name@
    &&& opt_view(row.project_id) == key
    &&& (match key {
        Option::Some(pid) => {
            &&& has_project(s.projects@, pid)
            &&& opt_view(row.project_name) == Option::Some(
                s.projects@[project_index(s.projects@, pid)].name@,
            )
            &&& opt_view(row.project_color) == Option::Some(
                s.projects@[project_index(s.projects@, pid)].color@,
            )
        },
        Option::None => row.project_name is None && row.project_color is None,
    })
    &&& row.total_minutes == clamp64(group_sum(s.entries@, s.tasks@, s.projects@, u.id@, key))
}

/// A row the report may contain: it names a visible user among the first
/// `bound` users, carries that user's names, resolves its project fields
/// consistently, matches a project key the user's entries use (or the
/// project-less key for a user without entries), and carries the exact
/// clamped group total.
pub open spec fn row_valid_upto(s: Store, caller: Role, row: TimeReportRow, bound: int) -> bool {
    exists|ui: int|
        0 <= ui < bound && in_scope(#[trigger] s.users@[ui], caller) && row_matches_user(
            s,
            s.users@[ui],
            row,
        )
}

/// The row belongs to user `u`: names copied, project fields resolved,
/// the project key justified by the user's entries, and the total exact.
pub open spec fn row_matches_user(s: Store, u: User, row: TimeReportRow) -> bool {
    &&& row.user_id@ == u.id@
    &&& row.username@ == u.username@
    &&& row.full_name@ == u.full_name@
    &&& (match opt_view(row.project_id) {
        Option::Some(pid) => {
            &&& has_project(s.projects@, pid)
            &&& opt_view(row.project_name) == Option::Some(
                s.projects@[project_index(s.projects@, pid)].name@,
            )
            &&& opt_view(row.project_color) == Option::Some(
                s.projects@[project_index(s.projects@, pid)].color@,
            )
            &&& key_used(s.entries@, s.tasks@, s.projects@, u.id@, Option::Some(pid))
        },
        Option::None => {
            &&& row.project_name is None
            &&& row.project_color is None
            &&& (key_used(s.entries@, s.tasks@, s.projects@, u.id@, Option::None)
                || !user_has_entries(s.entries@, u.id@))
        },
    })
    &&& row.total_minutes == clamp64(
        group_sum(s.entries@, s.tasks@, s.projects@, u.id@, opt_view(row.project_id)),
    )
}

/// A row the report may contain, over the whole user table.
pub open spec fn row_valid(s: Store, caller: Role, row: TimeReportRow) -> bool {
    row_valid_upto(s, caller, row, s.users@.len() as int)
}

/// Some row of `rows` is the row owed to user `u` and key `key`.
pub open spec fn covered(
    s: Store,
    u: User,
    key: Option<Seq<char>>,
    rows: Seq<TimeReportRow>,
) -> bool {
    exists|i: int| 0 <= i < rows.len() && row_for(s, u, key, #[trigger] rows[i])
}

/// A row that matches a visible user among the first `bound` users is valid.
proof fn lemma_valid_intro(s: Store, caller: Role, row: TimeReportRow, wi: int, bound: int)
    requires
        0 <= wi < bound,
        in_scope(s.users@[wi], caller),
        row_matches_user(s, s.users@[wi], row),
    ensures
        row_valid_upto(s, caller, row, bound),
{
    assert(0 <= wi < bound && in_scope(s.users@[wi], caller) && row_matches_user(
        s,
        s.users@[wi],
        row,
    ));
}

/// Equality of two optional keys by value./// Equality of two optional keys by value.
fn opt_eq(a: &Option<String>, b: &Option<String>) -> (r: bool)
    ensures
        r == (opt_view(*a) == opt_view(*b)),
{
    match (a, b) {
        (Option::None, Option::None) => true,
        (Option::Some(x), Option::Some(y)) => *x == *y,
        _ => false,
    }
}

/// The project key the task with key `task_id` resolves to.
fn resolved_key(store: &Store, task_id: &String) -> (r: Option<String>)
    requires
        store.wf(),
    ensures
        opt_view(r) == key_of(store.tasks@, store.projects@, task_id@),
{
    let ti = match store.task_pos(task_id) {
        Option::None => {
            return Option::None;
        },
        Option::Some(ti) => ti,
    };
    proof {
        assert(has_task(store.tasks@, task_id@));
        assert(task_index(store.tasks@, task_id@) == ti) by {
            let x = task_index(store.tasks@, task_id@);
            if x != ti {
                assert(store.tasks@[x].id@ == store.tasks@[ti as int].id@);
            }
        }
    }
    match &store.tasks[ti].project_id {
        Option::None => Option::None,
        Option::Some(pid) => {
            match store.project_pos(pid) {
                Option::Some(_pi) => Option::Some(pid.clone()),
                Option::None => Option::None,
            }
        },
    }
}

/// Clamped total minutes of user `uid` under project key `key`.
fn group_total(store: &Store, uid: &String, key: &Option<String>) -> (r: u64)
    requires
        store.wf(),
    ensures
        r == clamp64(group_sum(store.entries@, store.tasks@, store.projects@, uid@, opt_view(*key))),
{
    let ghost tasks = store.tasks@;
    let ghost projects = store.projects@;
    let ghost uidv = uid@;
    let ghost k = opt_view(*key);
    let mut total: u64 = 0;
    let mut i: usize = 0;
    proof {
        assert(store.entries@.subrange(0, 0) =~= Seq::<TimeEntry>::empty());
        lemma_group_empty(tasks, projects, uidv, k);
    }
    while i < store.entries.len()
        invariant
            store.wf(),
            tasks == store.tasks@,
            projects == store.projects@,
            k == opt_view(*key),
            uidv == uid@,
            i <= store.entries@.len(),
            total == clamp64(
                sum_minutes(
                    group_entries(store.entries@.subrange(0, i as int), tasks, projects, uidv, k),
                ),
            ),
        decreases store.entries@.len() - i,
    {
        let ghost pre = store.entries@.subrange(0, i as int);
        let ghost fpre = group_entries(pre, tasks, projects, uidv, k);
        proof {
            assert(store.entries@.subrange(0, i + 1) =~= pre.push(store.entries@[i as int]));
            lemma_group_push(pre, store.entries@[i as int], tasks, projects, uidv, k);
        }
        let matches_user = store.entries[i].user_id == *uid;
        let mut matched = false;
        if matches_user {
            let rk = resolved_key(store, &store.entries[i].task_id);
            if opt_eq(&rk, key) {
                matched = true;
                proof {
                    assert(group_entries(pre.push(store.entries@[i as int]), tasks, projects,
                        uidv, k) == fpre.push(store.entries@[i as int]));
                    lemma_sum_push(fpre, store.entries@[i as int]);
                    lemma_sum_nonneg(fpre);
                }
                let d = store.entries[i].duration_minutes;
                if total > u64::MAX - d {
                    total = u64::MAX;
                } else {
                    total = total + d;
                }
            }
        }
        proof {
            if !matched {
                assert(group_entries(pre.push(store.entries@[i as int]), tasks, projects, uidv, k)
                    == fpre);
            }
        }
        i = i + 1;
    }
    proof {
        assert(store.entries@.subrange(0, store.entries@.len() as int) =~= store.entries@);
        assert(group_entries(store.entries@, tasks, projects, uidv, k) == group_entries(
            store.entries@.subrange(0, store.entries@.len() as int), tasks, projects, uidv, k));
    }
    total
}

/// Build the report rows for the caller's role. Fails with `Forbidden` for
/// a plain user. Every returned row belongs to a visible user and carries
/// that user's exact clamped per-project total, and every visible user
/// contributes a row for each project key their entries use, or one
/// project-less zero row if they have none.
#[verifier::rlimit(100)]
#[verifier::spinoff_prover]
pub fn get_time_report_admin(store: &Store, caller_role: Role) -> (r: Result<
    Vec<TimeReportRow>,
    OpError,
>)
    requires
        store.wf(),
    ensures
        r is Ok <==> caller_role != Role::User,
        (match r {
            Result::Ok(rows) => {
                &&& forall|i: int|
                    0 <= i < rows@.len() ==> row_valid(*store, caller_role, #[trigger] rows@[i])
                &&& forall|ui: int, ei: int|
                    0 <= ui < store.users@.len() && in_scope(#[trigger] store.users@[ui], caller_role)
                        && 0 <= ei < store.entries@.len() && store.entries@[ei].user_id@
                        == store.users@[ui].id@ ==> covered(
                        *store,
                        store.users@[ui],
                        key_of(store.tasks@, store.projects@, #[trigger] store.entries@[ei].task_id@),
                        rows@,
                    )
                &&& forall|ui: int|
                    0 <= ui < store.users@.len() && in_scope(#[trigger] store.users@[ui], caller_role)
                        && !user_has_entries(store.entries@, store.users@[ui].id@) ==> covered(
                        *store,
                        store.users@[ui],
                        Option::<Seq<char>>::None,
                        rows@,
                    )
            },
            Result::Err(e) => e == OpError::Forbidden,
        }),
{
    if let Role::User = caller_role {
        return Result::Err(OpError::Forbidden);
    }
    let mut rows: Vec<TimeReportRow> = Vec::new();
    let mut ui: usize = 0;
    while ui < store.users.len()
        invariant
            store.wf(),
            caller_role != Role::User,
            ui <= store.users@.len(),
            forall|i: int|
                0 <= i < rows@.len() ==> row_valid(*store, caller_role, #[trigger] rows@[i]),
            forall|u2: int, ei: int|
                0 <= u2 < ui && in_scope(#[trigger] store.users@[u2], caller_role) && 0 <= ei
                    < store.entries@.len() && store.entries@[ei].user_id@ == store.users@[u2].id@
                    ==> covered(
                    *store,
                    store.users@[u2],
                    key_of(store.tasks@, store.projects@, #[trigger] store.entries@[ei].task_id@),
                    rows@,
                ),
            forall|u2: int|
                0 <= u2 < ui && in_scope(#[trigger] store.users@[u2], caller_role)
                    && !user_has_entries(store.entries@, store.users@[u2].id@) ==> covered(
                    *store,
                    store.users@[u2],
                    Option::<Seq<char>>::None,
                    rows@,
                ),
        decreases store.users@.len() - ui,
    {
        let u = clone_user(&store.users[ui]);
        let scope_ok = if let Role::Superadmin = caller_role {
            true
        } else {
            match u.role {
                Role::User => true,
                _ => false,
            }
        };
        if scope_ok {
            let ghost uid = u.id@;
            // Collect the distinct project keys this user's entries use.
            let mut keys: Vec<Option<String>> = Vec::new();
            let mut any = false;
            let mut ei: usize = 0;
            while ei < store.entries.len()
                invariant
                    store.wf(),
                    u == store.users@[ui as int],
                    ui < store.users@.len(),
                    uid == u.id@,
                    ei <= store.entries@.len(),
                    forall|a: int, b: int|
                        0 <= a < b < keys@.len() ==> opt_view(#[trigger] keys@[a]) != opt_view(
                            #[trigger] keys@[b],
                        ),
                    forall|a: int|
                        0 <= a < keys@.len() ==> key_used(
                            store.entries@,
                            store.tasks@,
                            store.projects@,
                            uid,
                            opt_view(#[trigger] keys@[a]),
                        ),
                    forall|x: int|
                        0 <= x < ei && store.entries@[x].user_id@ == uid ==> exists|a: int|
                            0 <= a < keys@.len() && opt_view(keys@[a]) == key_of(
                                store.tasks@,
                                store.projects@,
                                #[trigger] store.entries@[x].task_id@,
                            ),
                    any == exists|x: int| 0 <= x < ei && #[trigger] store.entries@[x].user_id@ == uid,
                decreases store.entries@.len() - ei,
            {
                if store.entries[ei].user_id == u.id {
                    any = true;
                    let k = resolved_key(store, &store.entries[ei].task_id);
                    let mut found = false;
                    let mut kj: usize = 0;
                    while kj < keys.len()
                        invariant
                            kj <= keys@.len(),
                            found == exists|a: int|
                                0 <= a < kj && opt_view(#[trigger] keys@[a]) == opt_view(k),
                        decreases keys@.len() - kj,
                    {
                        if opt_eq(&keys[kj], &k) {
                            found = true;
                            proof {
                                assert(opt_view(keys@[kj as int]) == opt_view(k));
                            }
                        }
                        kj = kj + 1;
                    }
                    let ghost old_keys = keys@;
                    if !found {
                        keys.push(k);
                    }
                    proof {
                        assert(store.entries@[ei as int].user_id@ == uid);
                        assert(opt_view(k) == key_of(
                            store.tasks@,
                            store.projects@,
                            store.entries@[ei as int].task_id@,
                        ));
                        if !found {
                            assert(keys@ == old_keys.push(k));
                            assert(key_used(
                                store.entries@,
                                store.tasks@,
                                store.projects@,
                                uid,
                                opt_view(keys@[old_keys.len() as int]),
                            ));
                        }
                        assert forall|x: int|
                            0 <= x < ei + 1 && store.entries@[x].user_id@ == uid implies exists|
                            a: int,
                        |
                            0 <= a < keys@.len() && opt_view(keys@[a]) == key_of(
                                store.tasks@,
                                store.projects@,
                                #[trigger] store.entries@[x].task_id@,
                            ) by {
                            if x < ei {
                                let a0 = choose|a0: int|
                                    0 <= a0 < old_keys.len() && opt_view(old_keys[a0]) == key_of(
                                        store.tasks@,
                                        store.projects@,
                                        store.entries@[x].task_id@,
                                    );
                                assert(keys@[a0] == old_keys[a0]);
                                assert(opt_view(keys@[a0]) == key_of(
                                    store.tasks@,
                                    store.projects@,
                                    store.entries@[x].task_id@,
                                ));
                            } else {
                                if found {
                                    let a0 = choose|a0: int|
                                        0 <= a0 < old_keys.len() && opt_view(old_keys[a0])
                                            == opt_view(k);
                                    assert(keys@[a0] == old_keys[a0]);
                                    assert(opt_view(keys@[a0]) == opt_view(k));
                                } else {
                                    assert(opt_view(keys@[old_keys.len() as int]) == opt_view(k));
                                }
                            }
                        }
                    }
                }
                ei = ei + 1;
            }
            let ghost rows_start = rows@;
            if !any {
                proof {
                    lemma_group_none(
                        store.entries@,
                        store.tasks@,
                        store.projects@,
                        uid,
                        Option::<Seq<char>>::None,
                    );
                }
                rows.push(
                    TimeReportRow {
                        user_id: u.id.clone(),
                        username: u.username.clone(),
                        full_name: u.full_name.clone(),
                        project_id: Option::None,
                        project_name: Option::None,
                        project_color: Option::None,
                        total_minutes: 0,
                    },
                );
                proof {
                    assert(rows@ == rows_start.push(rows@[rows@.len() - 1]));
                    assert(row_for(
                        *store,
                        store.users@[ui as int],
                        Option::<Seq<char>>::None,
                        rows@[rows@.len() - 1],
                    ));
                }
            } else {
                let mut kj: usize = 0;
                while kj < keys.len()
                    invariant
                        store.wf(),
                        caller_role != Role::User,
                        u == store.users@[ui as int],
                        ui < store.users@.len(),
                        uid == u.id@,
                        in_scope(store.users@[ui as int], caller_role),
                        kj <= keys@.len(),
                        rows@.len() == rows_start.len() + kj,
                        rows@.subrange(0, rows_start.len() as int) == rows_start,
                        forall|a: int, b: int|
                            0 <= a < b < keys@.len() ==> opt_view(#[trigger] keys@[a]) != opt_view(
                                #[trigger] keys@[b],
                            ),
                        forall|a: int|
                            0 <= a < keys@.len() ==> key_used(
                                store.entries@,
                                store.tasks@,
                                store.projects@,
                                uid,
                                opt_view(#[trigger] keys@[a]),
                            ),
                        forall|m: int|
                            0 <= m < kj ==> row_for(
                                *store,
                                store.users@[ui as int],
                                opt_view(#[trigger] keys@[m]),
                                rows@[rows_start.len() + m],
                            ),
                    decreases keys@.len() - kj,
                {
                    let total = group_total(store, &u.id, &keys[kj]);
                    let ghost k = opt_view(keys@[kj as int]);
                    let row = match &keys[kj] {
                        Option::None => TimeReportRow {
                            user_id: u.id.clone(),
                            username: u.username.clone(),
                            full_name: u.full_name.clone(),
                            project_id: Option::None,
                            project_name: Option::None,
                            project_color: Option::None,
                            total_minutes: total,
                        },
                        Option::Some(pid) => {
                            proof {
                                assert(key_used(
                                    store.entries@,
                                    store.tasks@,
                                    store.projects@,
                                    uid,
                                    k,
                                ));
                                let w = choose|w: int|
                                    0 <= w < store.entries@.len() && store.entries@[w].user_id@
                                        == uid && key_of(
                                        store.tasks@,
                                        store.projects@,
                                        store.entries@[w].task_id@,
                                    ) == k;
                                assert(has_project(store.projects@, pid@));
                            }
                            match store.project_pos(pid) {
                                Option::Some(pi) => {
                                    proof {
                                        assert(project_index(store.projects@, pid@) == pi) by {
                                            let x = project_index(store.projects@, pid@);
                                            if x != pi {
                                                assert(store.projects@[x].id@
                                                    == store.projects@[pi as int].id@);
                                            }
                                        }
                                    }
                                    TimeReportRow {
                                        user_id: u.id.clone(),
                                        username: u.username.clone(),
                                        full_name: u.full_name.clone(),
                                        project_id: Option::Some(pid.clone()),
                                        project_name: Option::Some(
                                            store.projects[pi].name.clone(),
                                        ),
                                        project_color: Option::Some(
                                            store.projects[pi].color.clone(),
                                        ),
                                        total_minutes: total,
                                    }
                                },
                                Option::None => {
                                    proof {
                                        assert(false);
                                    }
                                    TimeReportRow {
                                        user_id: u.id.clone(),
                                        username: u.username.clone(),
                                        full_name: u.full_name.clone(),
                                        project_id: Option::None,
                                        project_name: Option::None,
                                        project_color: Option::None,
                                        total_minutes: total,
                                    }
                                },
                            }
                        },
                    };
                    proof {
                        assert(row_for(*store, store.users@[ui as int], k, row));
                    }
                    let ghost rows_before = rows@;
                    rows.push(row);
                    proof {
                        assert(rows@.subrange(0, rows_start.len() as int) =~= rows_start);
                        assert forall|m: int| 0 <= m < kj + 1 implies row_for(
                            *store,
                            store.users@[ui as int],
                            opt_view(#[trigger] keys@[m]),
                            rows@[rows_start.len() + m],
                        ) by {
                            if m < kj {
                                assert(rows@[rows_start.len() + m] == rows_before[rows_start.len()
                                    + m]);
                            }
                        }
                    }
                    kj = kj + 1;
                }
            }
            // Re-establish the outer invariants over this user's new rows.
            proof {
                assert(in_scope(store.users@[ui as int], caller_role));
                if !any {
                    assert(rows@.len() == rows_start.len() + 1);
                    assert(rows@.subrange(0, rows_start.len() as int) =~= rows_start);
                    assert(row_for(
                        *store,
                        store.users@[ui as int],
                        Option::<Seq<char>>::None,
                        rows@[rows_start.len() as int],
                    ));
                }
                assert forall|i: int| 0 <= i < rows@.len() implies row_valid(
                    *store,
                    caller_role,
                    #[trigger] rows@[i],
                ) by {
                    if i < rows_start.len() {
                        assert(rows@[i] == rows_start[i]);
                        assert(row_valid(*store, caller_role, rows@[i]));
                    } else {
                        if !any {
                            assert(row_for(
                                *store,
                                store.users@[ui as int],
                                Option::<Seq<char>>::None,
                                rows@[i],
                            ));
                            assert(!user_has_entries(store.entries@, uid));
                        } else {
                            let m = i - rows_start.len();
                            assert(row_for(
                                *store,
                                store.users@[ui as int],
                                opt_view(keys@[m]),
                                rows@[i],
                            ));
                            assert(key_used(
                                store.entries@,
                                store.tasks@,
                                store.projects@,
                                uid,
                                opt_view(keys@[m]),
                            ));
                        }
                        assert(row_matches_user(*store, store.users@[ui as int], rows@[i]));
                        lemma_valid_intro(
                            *store,
                            caller_role,
                            rows@[i],
                            ui as int,
                            store.users@.len() as int,
                        );
                    }
                }
                assert forall|u2: int, ei2: int|
                    0 <= u2 < ui + 1 && in_scope(#[trigger] store.users@[u2], caller_role) && 0
                        <= ei2 < store.entries@.len() && store.entries@[ei2].user_id@
                        == store.users@[u2].id@ implies covered(
                    *store,
                    store.users@[u2],
                    key_of(store.tasks@, store.projects@, #[trigger] store.entries@[ei2].task_id@),
                    rows@,
                ) by {
                    if u2 < ui {
                        assert(covered(
                            *store,
                            store.users@[u2],
                            key_of(store.tasks@, store.projects@, store.entries@[ei2].task_id@),
                            rows_start,
                        ));
                        let i0 = choose|i0: int|
                            0 <= i0 < rows_start.len() && row_for(
                                *store,
                                store.users@[u2],
                                key_of(store.tasks@, store.projects@, store.entries@[ei2].task_id@),
                                #[trigger] rows_start[i0],
                            );
                        assert(rows@[i0] == rows_start[i0]);
                        assert(row_for(
                            *store,
                            store.users@[u2],
                            key_of(store.tasks@, store.projects@, store.entries@[ei2].task_id@),
                            rows@[i0],
                        ));
                    } else {
                        assert(store.entries@[ei2].user_id@ == uid);
                        assert(any);
                        let a = choose|a: int|
                            0 <= a < keys@.len() && opt_view(keys@[a]) == key_of(
                                store.tasks@,
                                store.projects@,
                                store.entries@[ei2].task_id@,
                            );
                        assert(row_for(
                            *store,
                            store.users@[ui as int],
                            opt_view(keys@[a]),
                            rows@[rows_start.len() + a],
                        ));
                    }
                }
                assert forall|u2: int|
                    0 <= u2 < ui + 1 && in_scope(#[trigger] store.users@[u2], caller_role)
                        && !user_has_entries(store.entries@, store.users@[u2].id@) implies covered(
                    *store,
                    store.users@[u2],
                    Option::<Seq<char>>::None,
                    rows@,
                ) by {
                    if u2 < ui {
                        assert(covered(
                            *store,
                            store.users@[u2],
                            Option::<Seq<char>>::None,
                            rows_start,
                        ));
                        let i0 = choose|i0: int|
                            0 <= i0 < rows_start.len() && row_for(
                                *store,
                                store.users@[u2],
                                Option::<Seq<char>>::None,
                                #[trigger] rows_start[i0],
                            );
                        assert(rows@[i0] == rows_start[i0]);
                        assert(row_for(
                            *store,
                            store.users@[u2],
                            Option::<Seq<char>>::None,
                            rows@[i0],
                        ));
                    } else {
                        assert(!any);
                        assert(row_for(
                            *store,
                            store.users@[ui as int],
                            Option::<Seq<char>>::None,
                            rows@[rows_start.len() as int],
                        ));
                    }
                }
            }
        }
        ui = ui + 1;
    }
    Result::Ok(rows)
}

} // verus!
