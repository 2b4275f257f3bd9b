//! The few points where the library touches the outside world: fresh keys,
//! the current instant, and password hashing. Each outside call sits in one
//! trusted wrapper; everything that depends on the value that came back is
//! verified against the wrapper's stated contract.

use vstd::prelude::*;

use argon2::password_hash::PasswordHasher;

use crate::auth::apply_password_reset;
use crate::auth::reset_password_outcome;
use crate::model::CreateTaskRequest;
use crate::model::OpError;
use crate::model::Role;
use crate::model::Task;
use crate::store::Store;
use crate::store::has_user;
use crate::store::user_index;
use crate::tasks::create_task;
use crate::tasks::created_task;

verus! {

/// Relies on uuid::Uuid::new_v4 and its Display impl: a fresh random
/// version-4 key in the hyphenated form, which is 36 characters long.
/// The value is random, so nothing more is assumed of it.
#[verifier::external_body]
fn fresh_id() -> (r: String)
    ensures
        r@.len() == 36,
{
    uuid::Uuid::new_v4().to_string()
}

/// Relies on chrono::Utc::now and DateTime::timestamp: the current unix
/// time in whole seconds. The value depends on the clock, so nothing is
/// assumed of it.
#[verifier::external_body]
fn now_timestamp() -> (r: i64)
{
    chrono::Utc::now().timestamp()
}

/// Relies on argon2::Argon2::hash_password with a salt drawn from OsRng: a
/// PHC-formatted digest of the password, or none when hashing fails. The
/// salt is random, so nothing is assumed of the digest's value.
#[verifier::external_body]
fn hash_password(password: &str) -> (r: Option<String>)
{
    let salt = argon2::password_hash::SaltString::generate(
        &mut argon2::password_hash::rand_core::OsRng,
    );
    match argon2::Argon2::default().hash_password(password.as_bytes(), &salt) {
        Ok(h) => Option::Some(h.to_string()),
        Err(_) => Option::None,
    }
}

/// The current unix time clamped to the non-negative range the model uses.
fn now_seconds() -> u64 {
    let t = now_timestamp();
    if t < 0 {
        0
    } else {
        t as u64
    }
}

/// Create a task under a freshly drawn key at the current instant: the
/// entry point that the deterministic `create_task` transition verifies
/// behind. A random key may collide with an existing one, in which case
/// the conflict is reported rather than overwriting.
pub fn create_task_now(store: &mut Store, req: &CreateTaskRequest) -> (r: Result<Task, OpError>)
    requires
        old(store).wf(),
    ensures
        final(store).wf(),
        (match r {
            Result::Ok(t) => {
                &&& exists|now: u64| #[trigger] created_task(t, *req, t.id@, now)
                &&& req.title@.len() > 0
                &&& final(store).tasks@ == old(store).tasks@.push(t)
                &&& final(store).entries@ == old(store).entries@
                &&& final(store).timers@ == old(store).timers@
                &&& final(store).users@ == old(store).users@
                &&& final(store).projects@ == old(store).projects@
            },
            Result::Err(e) => {
                &&& *final(store) == *old(store)
                &&& (e == OpError::Validation <==> req.title@.len() == 0)
                &&& (e == OpError::Validation || e == OpError::Conflict)
            },
        }),
{
    let id = fresh_id();
    let now = now_seconds();
    let r = create_task(store, req, id, now);
    match &r {
        Result::Ok(t) => {
            proof {
                assert(created_task(*t, *req, t.id@, now));
            }
        },
        Result::Err(_e) => {},
    }
    r
}

/// Reset the target user's password to a fresh hash of `new_password`,
/// subject to the same role hierarchy as the other administrative actions.
/// The policy is consulted before any hashing; a hashing failure on a
/// permitted call surfaces as an internal error and leaves the store
/// unchanged. On success the target's stored hash is replaced (with a
/// value this contract leaves unspecified, as it depends on a random
/// salt) and a password change is forced at next login.
pub fn reset_password(
    store: &mut Store,
    caller_role: Role,
    target_id: &String,
    new_password: &String,
) -> (r: Result<(), OpError>)
    requires
        old(store).wf(),
    ensures
        final(store).wf(),
        reset_password_outcome(old(store).users@, caller_role, target_id@) matches Result::Err(e2)
            ==> r == Result::<(), OpError>::Err(e2) && *final(store) == *old(store),
        reset_password_outcome(old(store).users@, caller_role, target_id@) is Ok ==> (match r {
            Result::Ok(u) => {
                let i = user_index(old(store).users@, target_id@);
                &&& final(store).users@.len() == old(store).users@.len()
                &&& forall|j: int|
                    0 <= j < old(store).users@.len() && j != i ==> final(store).users@[j] == old(
                        store,
                    ).users@[j]
                &&& final(store).users@[i].force_change_password == true
                &&& final(store).users@[i].id@ == old(store).users@[i].id@
                &&& final(store).users@[i].username@ == old(store).users@[i].username@
                &&& final(store).users@[i].full_name@ == old(store).users@[i].full_name@
                &&& final(store).users@[i].role == old(store).users@[i].role
                &&& final(store).users@[i].created_at == old(store).users@[i].created_at
                &&& final(store).tasks@ == old(store).tasks@
                &&& final(store).entries@ == old(store).entries@
                &&& final(store).timers@ == old(store).timers@
                &&& final(store).projects@ == old(store).projects@
            },
            Result::Err(e) => e == OpError::Internal && *final(store) == *old(store),
        }),
{
    if let Role::User = caller_role {
        return Result::Err(OpError::Forbidden);
    }
    let i = match store.user_pos(target_id) {
        Option::None => {
            return Result::Err(OpError::NotFound);
        },
        Option::Some(i) => i,
    };
    proof {
        assert(has_user(store.users@, target_id@));
        assert(user_index(store.users@, target_id@) == i) by {
            let x = user_index(store.users@, target_id@);
            if x != i {
                assert(store.users@[x].id@ == store.users@[i as int].id@);
            }
        }
    }
    let target_role = store.users[i].role;
    if let Role::Superadmin = target_role {
        return Result::Err(OpError::Forbidden);
    }
    let permitted = match (caller_role, target_role) {
        (Role::Superadmin, _) => true,
        (_, Role::User) => true,
        _ => false,
    };
    if !permitted {
        return Result::Err(OpError::Forbidden);
    }
    match hash_password(new_password.as_str()) {
        Option::None => Result::Err(OpError::Internal),
        Option::Some(h) => apply_password_reset(store, caller_role, target_id, h),
    }
}

} // verus!
