//! The general guarantees of the tracker, stated once and proved from the
//! operations' own contracts.

use vstd::prelude::*;

use crate::aggregate::entries_for;
use crate::auth::delete_user_outcome;
use crate::auth::role_allow_listed;
use crate::auth::update_role_outcome;
use crate::model::ActiveTimer;
use crate::model::OpError;
use crate::model::Role;
use crate::model::Task;
use crate::model::TimeEntry;
use crate::model::TimeReportRow;
use crate::model::User;
use crate::report::row_matches_user;
use crate::report::row_valid;
use crate::seqtools::lemma_filter_subset;
use crate::store::Store;
use crate::store::has_task;
use crate::store::has_timer;
use crate::store::has_user;
use crate::store::timers_unique;
use crate::store::user_index;

verus! {

/// Timer exclusivity: once a start transition has installed a timer for a
/// task, that task has an active timer, so by `start_timer`'s contract any
/// further start for the same task must return a conflict rather than
/// install a second timer.
pub proof fn lemma_timer_exclusivity(
    s0: Store,
    s1: Store,
    w: ActiveTimer,
    task_id: Seq<char>,
)
    requires
        !has_timer(s0.timers@, task_id),
        s1.timers@ == s0.timers@.push(w),
        w.task_id@ == task_id,
    ensures
        has_timer(s1.timers@, task_id),
{
    assert(s1.timers@[s0.timers@.len() as int] == w);
}

/// Stopping a just-started timer logs exactly one new entry for the task
/// and leaves the task with no active timer; the logged duration is never
/// negative (it is unsigned by construction).
pub proof fn lemma_stop_after_start(
    s0: Store,
    s1: Store,
    s2: Store,
    w: ActiveTimer,
    e: TimeEntry,
    task_id: Seq<char>,
)
    requires
        timers_unique(s0.timers@),
        !has_timer(s0.timers@, task_id),
        s1.timers@ == s0.timers@.push(w),
        w.task_id@ == task_id,
        s1.entries@ == s0.entries@,
        e.task_id@ == task_id,
        s2.entries@ == s1.entries@.push(e),
        s2.timers@ == s1.timers@.remove(
            crate::store::timer_index(s1.timers@, task_id),
        ),
    ensures
        entries_for(s2.entries@, task_id).len() == entries_for(s0.entries@, task_id).len() + 1,
        !has_timer(s2.timers@, task_id),
{
    crate::aggregate::lemma_entries_for_push(s1.entries@, e, task_id);
    let wi = crate::store::timer_index(s1.timers@, task_id);
    assert(s1.timers@[s0.timers@.len() as int] == w);
    assert(wi == s0.timers@.len() as int) by {
        if wi != s0.timers@.len() as int {
            assert(s1.timers@[wi].task_id@ == task_id);
            assert(s1.timers@[wi] == s0.timers@[wi]);
            assert(has_timer(s0.timers@, task_id));
        }
    }
    assert(s2.timers@ =~= s0.timers@);
}

/// Cascade on delete: after the cascading-delete transition nothing in the
/// store references the removed task any more.
pub proof fn lemma_cascade_delete(s0: Store, s1: Store, id: String)
    requires
        s1.tasks@ == s0.tasks@.filter(|t: Task| t.id@ != id@),
        s1.entries@ == s0.entries@.filter(|e: TimeEntry| e.task_id@ != id@),
        s1.timers@ == s0.timers@.filter(|w: ActiveTimer| w.task_id@ != id@),
    ensures
        !has_task(s1.tasks@, id@),
        entries_for(s1.entries@, id@).len() == 0,
        !has_timer(s1.timers@, id@),
{
    broadcast use vstd::seq_lib::group_filter_ensures;

    assert(!has_task(s1.tasks@, id@)) by {
        if has_task(s1.tasks@, id@) {
            let i = choose|i: int| 0 <= i < s1.tasks@.len() && s1.tasks@[i].id@ == id@;
            assert((|t: Task| t.id@ != id@)(s1.tasks@[i]));
        }
    }
    assert(!has_timer(s1.timers@, id@)) by {
        if has_timer(s1.timers@, id@) {
            let i = choose|i: int| 0 <= i < s1.timers@.len() && s1.timers@[i].task_id@ == id@;
            assert((|w: ActiveTimer| w.task_id@ != id@)(s1.timers@[i]));
        }
    }
    assert(entries_for(s1.entries@, id@).len() == 0) by {
        let kept = entries_for(s1.entries@, id@);
        if kept.len() > 0 {
            assert(kept[0].task_id@ == id@);
            lemma_filter_subset(s1.entries@, |e: TimeEntry| e.task_id@ == id@);
            assert(kept.contains(kept[0]));
            assert(s1.entries@.contains(kept[0]));
            let i = choose|i: int| 0 <= i < s1.entries@.len() && s1.entries@[i] == kept[0];
            assert((|e: TimeEntry| e.task_id@ != id@)(s1.entries@[i]));
        }
    }
}

/// Role hierarchy: with an administrative caller and an existing target
/// (and, for a role change, a role name the caller may assign), deleting
/// or re-roling a user succeeds exactly when the target is not a
/// superadmin, the caller is a superadmin or the target a plain user, and
/// the target is not the caller.
pub proof fn lemma_role_hierarchy(
    users: Seq<User>,
    caller_id: Seq<char>,
    caller: Role,
    target_id: Seq<char>,
    new_role: Seq<char>,
)
    requires
        caller != Role::User,
        has_user(users, target_id),
        role_allow_listed(caller, new_role),
    ensures
        delete_user_outcome(users, caller_id, caller, target_id) is Ok <==> {
            let t = users[user_index(users, target_id)].role;
            &&& t != Role::Superadmin
            &&& (caller == Role::Superadmin || t == Role::User)
            &&& target_id != caller_id
        },
        update_role_outcome(users, caller_id, caller, target_id, new_role) is Ok <==> {
            let t = users[user_index(users, target_id)].role;
            &&& t != Role::Superadmin
            &&& (caller == Role::Superadmin || t == Role::User)
            &&& target_id != caller_id
        },
{
}

/// Role allow-list: an admin asking to assign the `admin` role always gets
/// a validation error, whatever the target is.
pub proof fn lemma_admin_cannot_promote(
    users: Seq<User>,
    caller_id: Seq<char>,
    target_id: Seq<char>,
)
    requires
        target_id != caller_id,
    ensures
        update_role_outcome(users, caller_id, Role::Admin, target_id, "admin"@)
            == Result::<(), OpError>::Err(OpError::Validation),
{
    reveal_strlit("admin");
    reveal_strlit("user");
    assert("admin"@.len() == 5);
    assert("user"@.len() == 4);
    assert(!role_allow_listed(Role::Admin, "admin"@));
}

/// Report scoping: a report row built for an admin caller always belongs
/// to a plain user account.
pub proof fn lemma_report_scope(s: Store, row: TimeReportRow)
    requires
        row_valid(s, Role::Admin, row),
    ensures
        exists|ui: int|
            0 <= ui < s.users@.len() && #[trigger] s.users@[ui].role == Role::User
                && s.users@[ui].id@ == row.user_id@,
{
    let wi = choose|wi: int|
        0 <= wi < s.users@.len() as int && crate::report::in_scope(
            #[trigger] s.users@[wi],
            Role::Admin,
        ) && row_matches_user(s, s.users@[wi], row);
    assert(s.users@[wi].role == Role::User && s.users@[wi].id@ == row.user_id@);
}

} // verus!
