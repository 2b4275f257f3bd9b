//! Role-gated user administration. The policy is a pure decision over
//! `(callerRole, callerId, targetId, targetRole)`: `superadmin > admin >
//! user`, nobody touches a superadmin, nobody changes their own role, and
//! an admin may only act on plain users.
//!
//! Password resets apply the same target-role hierarchy as deletion and
//! role changes, so an admin cannot reset a superadmin's credentials.

use vstd::prelude::*;

use crate::model::OpError;
use crate::model::Role;
use crate::model::User;
use crate::model::clone_user;
use crate::store::Store;
use crate::store::has_user;
use crate::store::user_index;

verus! {

/// The users a caller of the given role may see: a superadmin sees all,
/// an admin only plain users.
pub open spec fn visible_users(s: Seq<User>, caller: Role) -> Seq<User> {
    if caller == Role::Superadmin {
        s
    } else {
        s.filter(|u: User| u.role == Role::User)
    }
}

/// The role a valid role name denotes (names outside the closed set are
/// rejected before this is consulted).
pub open spec fn role_named_is(s: Seq<char>) -> Role {
    if s == "superadmin"@ {
        Role::Superadmin
    } else if s == "admin"@ {
        Role::Admin
    } else {
        Role::User
    }
}

/// The role-name allow-list of `ChangeRole`: a superadmin may assign any of
/// the three roles, an admin only `user`, and any other request is invalid.
pub open spec fn role_allow_listed(caller: Role, new_role: Seq<char>) -> bool {
    ||| (caller == Role::Superadmin && (new_role == "superadmin"@ || new_role == "admin"@
        || new_role == "user"@))
    ||| (caller == Role::Admin && new_role == "user"@)
}

/// The pure target-role hierarchy shared by every administrative action:
/// a superadmin target is untouchable, an admin target takes a superadmin
/// caller, and a plain-user target takes any administrative caller.
pub open spec fn hierarchy_permits(caller: Role, target: Role) -> bool {
    &&& target != Role::Superadmin
    &&& (caller == Role::Superadmin || target == Role::User)
}

/// Decision of `DeleteUser`, evaluated in order: the caller must be
/// administrative, must not target itself, the target must exist, and the
/// target-role hierarchy must permit the action.
pub open spec fn delete_user_outcome(
    users: Seq<User>,
    caller_id: Seq<char>,
    caller: Role,
    target_id: Seq<char>,
) -> Result<(), OpError> {
    if caller == Role::User {
        Result::Err(OpError::Forbidden)
    } else if target_id == caller_id {
        Result::Err(OpError::Forbidden)
    } else if !has_user(users, target_id) {
        Result::Err(OpError::NotFound)
    } else if !hierarchy_permits(caller, users[user_index(users, target_id)].role) {
        Result::Err(OpError::Forbidden)
    } else {
        Result::Ok(())
    }
}

/// Decision of `ChangeRole`, evaluated in order: no self-change, an
/// administrative caller, a role name on the caller's allow-list, an
/// existing target, and the target-role hierarchy.
pub open spec fn update_role_outcome(
    users: Seq<User>,
    caller_id: Seq<char>,
    caller: Role,
    target_id: Seq<char>,
    new_role: Seq<char>,
) -> Result<(), OpError> {
    if target_id == caller_id {
        Result::Err(OpError::Validation)
    } else if caller == Role::User {
        Result::Err(OpError::Forbidden)
    } else if !role_allow_listed(caller, new_role) {
        Result::Err(OpError::Validation)
    } else if !has_user(users, target_id) {
        Result::Err(OpError::NotFound)
    } else if !hierarchy_permits(caller, users[user_index(users, target_id)].role) {
        Result::Err(OpError::Forbidden)
    } else {
        Result::Ok(())
    }
}

/// Decision of `ResetPassword`: an administrative caller, an existing
/// target, and the target-role hierarchy; resetting one's own password is
/// not excluded.
pub open spec fn reset_password_outcome(
    users: Seq<User>,
    caller: Role,
    target_id: Seq<char>,
) -> Result<(), OpError> {
    if caller == Role::User {
        Result::Err(OpError::Forbidden)
    } else if !has_user(users, target_id) {
        Result::Err(OpError::NotFound)
    } else if !hierarchy_permits(caller, users[user_index(users, target_id)].role) {
        Result::Err(OpError::Forbidden)
    } else {
        Result::Ok(())
    }
}

/// The target user with its role replaced.
pub open spec fn user_with_role(u: User, r: Role) -> User {
    User { role: r, ..u }
}

/// List the users visible to the caller, ordered by `created_at`
/// descending. A plain user may not list accounts at all.
pub fn get_users(store: &Store, caller_role: Role) -> (r: Result<Vec<User>, OpError>)
    requires
        store.wf(),
    ensures
        r is Ok <==> caller_role != Role::User,
        (match r {
            Result::Ok(us) => {
                &&& us@.to_multiset() == visible_users(store.users@, caller_role).to_multiset()
                &&& forall|i: int, j: int|
                    0 <= i < j < us@.len() ==> us@[i].created_at >= us@[j].created_at
            },
            Result::Err(e) => e == OpError::Forbidden,
        }),
{
    match caller_role {
        Role::User => Result::Err(OpError::Forbidden),
        Role::Superadmin => {
            let mut all: Vec<User> = Vec::new();
            let mut i: usize = 0;
            assert(all@ =~= store.users@.subrange(0, 0));
            while i < store.users.len()
                invariant
                    i <= store.users@.len(),
                    all@ == store.users@.subrange(0, i as int),
                decreases store.users@.len() - i,
            {
                proof {
                    assert(store.users@.subrange(0, i + 1) =~= store.users@.subrange(
                        0,
                        i as int,
                    ).push(store.users@[i as int]));
                }
                all.push(clone_user(&store.users[i]));
                i = i + 1;
            }
            assert(store.users@.subrange(0, store.users@.len() as int) =~= store.users@);
            Result::Ok(sort_users_desc(all))
        },
        Role::Admin => {
            let mut plain: Vec<User> = Vec::new();
            let mut i: usize = 0;
            proof {
                reveal(Seq::filter);
                assert(plain@ =~= store.users@.subrange(0, 0).filter(
                    |u: User| u.role == Role::User,
                ));
            }
            while i < store.users.len()
                invariant
                    i <= store.users@.len(),
                    plain@ == store.users@.subrange(0, i as int).filter(
                        |u: User| u.role == Role::User,
                    ),
                decreases store.users@.len() - i,
            {
                let ghost pre = store.users@.subrange(0, i as int);
                proof {
                    assert(store.users@.subrange(0, i + 1) =~= pre.push(store.users@[i as int]));
                    pre.lemma_filter_push(store.users@[i as int], |u: User| u.role == Role::User);
                }
                if store.users[i].role == Role::User {
                    plain.push(clone_user(&store.users[i]));
                }
                i = i + 1;
            }
            assert(store.users@.subrange(0, store.users@.len() as int) =~= store.users@);
            Result::Ok(sort_users_desc(plain))
        },
    }
}

/// Sort users by `created_at` descending (selection of a maximum each
/// round); the result is a reordering of the input.
fn sort_users_desc(v: Vec<User>) -> (r: Vec<User>)
    ensures
        r@.to_multiset() == v@.to_multiset(),
        forall|i: int, j: int| 0 <= i < j < r@.len() ==> r@[i].created_at >= r@[j].created_at,
{
    broadcast use vstd::seq_lib::group_to_multiset_ensures;
    broadcast use vstd::multiset::group_multiset_axioms;

    let mut rem = v;
    let mut out: Vec<User> = Vec::new();
    proof {
        assert(out@.to_multiset().add(rem@.to_multiset()) =~= v@.to_multiset());
    }
    while rem.len() > 0
        invariant
            out@.to_multiset().add(rem@.to_multiset()) == v@.to_multiset(),
            forall|i: int, j: int|
                0 <= i < j < out@.len() ==> out@[i].created_at >= out@[j].created_at,
            forall|i: int, j: int|
                0 <= i < out@.len() && 0 <= j < rem@.len() ==> out@[i].created_at
                    >= rem@[j].created_at,
        decreases rem@.len(),
    {
        let mut best: usize = 0;
        let mut k: usize = 1;
        while k < rem.len()
            invariant
                best < rem@.len(),
                k <= rem@.len(),
                forall|j: int| 0 <= j < k ==> rem@[best as int].created_at >= rem@[j].created_at,
            decreases rem@.len() - k,
        {
            if rem[k].created_at > rem[best].created_at {
                best = k;
            }
            k = k + 1;
        }
        let ghost prev_out = out@;
        let ghost prev_rem = rem@;
        let u = rem.remove(best);
        out.push(u);
        proof {
            prev_rem.to_multiset_ensures();
            prev_out.to_multiset_ensures();
            assert(prev_rem.contains(u)) by {
                assert(prev_rem[best as int] == u);
            }
            assert(rem@.to_multiset() =~= prev_rem.to_multiset().remove(u));
            assert(out@.to_multiset() =~= prev_out.to_multiset().insert(u));
            assert(out@.to_multiset().add(rem@.to_multiset()) =~= v@.to_multiset());
            assert forall|i: int, j: int|
                0 <= i < out@.len() && 0 <= j < rem@.len() implies out@[i].created_at
                >= rem@[j].created_at by {
                if j < best {
                    assert(rem@[j] == prev_rem[j]);
                } else {
                    assert(rem@[j] == prev_rem[j + 1]);
                }
            }
        }
    }
    proof {
        assert(rem@ =~= Seq::<User>::empty());
        assert(rem@.to_multiset() =~= vstd::multiset::Multiset::<User>::empty()) by {
            rem@.to_multiset_ensures();
        }
        assert(out@.to_multiset() =~= v@.to_multiset());
    }
    out
}

/// Preserves well-formedness and the other record kinds when one user
/// record is replaced in place.
proof fn lemma_users_update_wf(s0: Store, s1: Store, i: int, u: User)
    requires
        s0.wf(),
        0 <= i < s0.users@.len(),
        u.id@ == s0.users@[i].id@,
        s1.users@ == s0.users@.update(i, u),
        s1.tasks@ == s0.tasks@,
        s1.entries@ == s0.entries@,
        s1.timers@ == s0.timers@,
        s1.projects@ == s0.projects@,
    ensures
        s1.wf(),
{
    assert forall|a: int, b: int|
        0 <= a < b < s1.users@.len() implies s1.users@[a].id@ != s1.users@[b].id@ by {
        assert(s1.users@[a].id@ == s0.users@[a].id@);
        assert(s1.users@[b].id@ == s0.users@[b].id@);
    }
}

/// Delete the user with key `target_id` on behalf of the caller, subject
/// to the role hierarchy.
pub fn delete_user(
    store: &mut Store,
    caller_id: &String,
    caller_role: Role,
    target_id: &String,
) -> (r: Result<(), OpError>)
    requires
        old(store).wf(),
    ensures
        final(store).wf(),
        r == delete_user_outcome(old(store).users@, caller_id@, caller_role, target_id@),
        (match r {
            Result::Ok(u) => {
                &&& final(store).users@ == old(store).users@.remove(
                    user_index(old(store).users@, target_id@),
                )
                &&& final(store).tasks@ == old(store).tasks@
                &&& final(store).entries@ == old(store).entries@
                &&& final(store).timers@ == old(store).timers@
                &&& final(store).projects@ == old(store).projects@
            },
            Result::Err(e) => *final(store) == *old(store),
        }),
{
    if let Role::User = caller_role {
        return Result::Err(OpError::Forbidden);
    }
    if *target_id == *caller_id {
        return Result::Err(OpError::Forbidden);
    }
    let i = match store.user_pos(target_id) {
        Option::None => {
            return Result::Err(OpError::NotFound);
        },
        Option::Some(i) => i,
    };
    proof {
        assert(has_user(store.users@, target_id@));
        assert(user_index(store.users@, target_id@) == i) by {
            let x = user_index(store.users@, target_id@);
            if x != i {
                assert(store.users@[x].id@ == store.users@[i as int].id@);
            }
        }
    }
    let target_role = store.users[i].role;
    if let Role::Superadmin = target_role {
        return Result::Err(OpError::Forbidden);
    }
    let permitted = match (caller_role, target_role) {
        (Role::Superadmin, _) => true,
        (_, Role::User) => true,
        _ => false,
    };
    if !permitted {
        return Result::Err(OpError::Forbidden);
    }
    let ghost old_users = store.users@;
    let _removed = store.users.remove(i);
    proof {
        old_users.remove_ensures(i as int);
        assert forall|a: int, b: int|
            0 <= a < b < store.users@.len() implies store.users@[a].id@ != store.users@[b].id@ by {
            let oa: int = if a < i {
                a
            } else {
                a + 1
            };
            let ob: int = if b < i {
                b
            } else {
                b + 1
            };
            assert(store.users@[a] == old_users[oa]);
            assert(store.users@[b] == old_users[ob]);
        }
    }
    Result::Ok(())
}

/// Change the role of the user with key `target_id` to the named role, on
/// behalf of the caller, subject to the allow-list and the role hierarchy.
pub fn update_role(
    store: &mut Store,
    caller_id: &String,
    caller_role: Role,
    target_id: &String,
    new_role: &String,
) -> (r: Result<(), OpError>)
    requires
        old(store).wf(),
    ensures
        final(store).wf(),
        r == update_role_outcome(
            old(store).users@,
            caller_id@,
            caller_role,
            target_id@,
            new_role@,
        ),
        (match r {
            Result::Ok(u) => {
                let i = user_index(old(store).users@, target_id@);
                &&& final(store).users@ == old(store).users@.update(
                    i,
                    user_with_role(old(store).users@[i], role_named_is(new_role@)),
                )
                &&& final(store).tasks@ == old(store).tasks@
                &&& final(store).entries@ == old(store).entries@
                &&& final(store).timers@ == old(store).timers@
                &&& final(store).projects@ == old(store).projects@
            },
            Result::Err(e) => *final(store) == *old(store),
        }),
{
    if *target_id == *caller_id {
        return Result::Err(OpError::Validation);
    }
    if let Role::User = caller_role {
        return Result::Err(OpError::Forbidden);
    }
    let allowed = match caller_role {
        Role::Superadmin => *new_role == "superadmin".to_owned() || *new_role
            == "admin".to_owned() || *new_role == "user".to_owned(),
        Role::Admin => *new_role == "user".to_owned(),
        Role::User => false,
    };
    if !allowed {
        return Result::Err(OpError::Validation);
    }
    let i = match store.user_pos(target_id) {
        Option::None => {
            return Result::Err(OpError::NotFound);
        },
        Option::Some(i) => i,
    };
    proof {
        assert(has_user(store.users@, target_id@));
        assert(user_index(store.users@, target_id@) == i) by {
            let x = user_index(store.users@, target_id@);
            if x != i {
                assert(store.users@[x].id@ == store.users@[i as int].id@);
            }
        }
    }
    let target_role = store.users[i].role;
    if let Role::Superadmin = target_role {
        return Result::Err(OpError::Forbidden);
    }
    let permitted = match (caller_role, target_role) {
        (Role::Superadmin, _) => true,
        (_, Role::User) => true,
        _ => false,
    };
    if !permitted {
        return Result::Err(OpError::Forbidden);
    }
    let parsed: Role = if *new_role == "superadmin".to_owned() {
        Role::Superadmin
    } else if *new_role == "admin".to_owned() {
        Role::Admin
    } else {
        Role::User
    };
    let mut u1 = clone_user(&store.users[i]);
    u1.role = parsed;
    let ghost s_before = *store;
    let ghost old_users = store.users@;
    let _removed = store.users.remove(i);
    store.users.insert(i, u1);
    proof {
        assert(store.users@ =~= old_users.update(
            i as int,
            user_with_role(old_users[i as int], role_named_is(new_role@)),
        ));
        lemma_users_update_wf(
            s_before,
            *store,
            i as int,
            user_with_role(old_users[i as int], role_named_is(new_role@)),
        );
    }
    Result::Ok(())
}

/// Record a fresh password hash for the user with key `target_id` and
/// force a password change at next login, subject to the role hierarchy.
pub fn apply_password_reset(
    store: &mut Store,
    caller_role: Role,
    target_id: &String,
    new_hash: String,
) -> (r: Result<(), OpError>)
    requires
        old(store).wf(),
    ensures
        final(store).wf(),
        r == reset_password_outcome(old(store).users@, caller_role, target_id@),
        (match r {
            Result::Ok(u) => {
                let i = user_index(old(store).users@, target_id@);
                &&& final(store).users@.len() == old(store).users@.len()
                &&& forall|j: int|
                    0 <= j < old(store).users@.len() && j != i ==> final(store).users@[j] == old(
                        store,
                    ).users@[j]
                &&& final(store).users@[i].password_hash@ == new_hash@
                &&& final(store).users@[i].force_change_password == true
                &&& final(store).users@[i].id@ == old(store).users@[i].id@
                &&& final(store).users@[i].username@ == old(store).users@[i].username@
                &&& final(store).users@[i].full_name@ == old(store).users@[i].full_name@
                &&& final(store).users@[i].role == old(store).users@[i].role
                &&& final(store).users@[i].created_at == old(store).users@[i].created_at
                &&& final(store).tasks@ == old(store).tasks@
                &&& final(store).entries@ == old(store).entries@
                &&& final(store).timers@ == old(store).timers@
                &&& final(store).projects@ == old(store).projects@
            },
            Result::Err(e) => *final(store) == *old(store),
        }),
{
    if let Role::User = caller_role {
        return Result::Err(OpError::Forbidden);
    }
    let i = match store.user_pos(target_id) {
        Option::None => {
            return Result::Err(OpError::NotFound);
        },
        Option::Some(i) => i,
    };
    proof {
        assert(has_user(store.users@, target_id@));
        assert(user_index(store.users@, target_id@) == i) by {
            let x = user_index(store.users@, target_id@);
            if x != i {
                assert(store.users@[x].id@ == store.users@[i as int].id@);
            }
        }
    }
    let target_role = store.users[i].role;
    if let Role::Superadmin = target_role {
        return Result::Err(OpError::Forbidden);
    }
    let permitted = match (caller_role, target_role) {
        (Role::Superadmin, _) => true,
        (_, Role::User) => true,
        _ => false,
    };
    if !permitted {
        return Result::Err(OpError::Forbidden);
    }
    let mut u1 = clone_user(&store.users[i]);
    u1.password_hash = new_hash;
    u1.force_change_password = true;
    let ghost s_before = *store;
    let ghost old_users = store.users@;
    let ghost u1g = u1;
    let _removed = store.users.remove(i);
    store.users.insert(i, u1);
    proof {
        assert(store.users@ =~= old_users.update(i as int, u1g));
        lemma_users_update_wf(s_before, *store, i as int, u1g);
    }
    Result::Ok(())
}

/// Update the calling user's own display name; an unknown caller id is a
/// silent no-op, as the underlying record update simply matches nothing.
pub fn update_profile(store: &mut Store, caller_id: &String, full_name: &String)
    requires
        old(store).wf(),
    ensures
        final(store).wf(),
        final(store).users@.len() == old(store).users@.len(),
        has_user(old(store).users@, caller_id@) ==> {
            let i = user_index(old(store).users@, caller_id@);
            &&& forall|j: int|
                0 <= j < old(store).users@.len() && j != i ==> final(store).users@[j] == old(
                    store,
                ).users@[j]
            &&& final(store).users@[i].full_name@ == full_name@
            &&& final(store).users@[i].id@ == old(store).users@[i].id@
            &&& final(store).users@[i].username@ == old(store).users@[i].username@
            &&& final(store).users@[i].password_hash@ == old(store).users@[i].password_hash@
            &&& final(store).users@[i].role == old(store).users@[i].role
            &&& final(store).users@[i].force_change_password == old(
                store,
            ).users@[i].force_change_password
            &&& final(store).users@[i].created_at == old(store).users@[i].created_at
        },
        !has_user(old(store).users@, caller_id@) ==> *final(store) == *old(store),
        final(store).tasks@ == old(store).tasks@,
        final(store).entries@ == old(store).entries@,
        final(store).timers@ == old(store).timers@,
        final(store).projects@ == old(store).projects@,
{
    let i = match store.user_pos(caller_id) {
        Option::None => {
            return ;
        },
        Option::Some(i) => i,
    };
    proof {
        assert(has_user(store.users@, caller_id@));
        assert(user_index(store.users@, caller_id@) == i) by {
            let x = user_index(store.users@, caller_id@);
            if x != i {
                assert(store.users@[x].id@ == store.users@[i as int].id@);
            }
        }
    }
    let mut u1 = clone_user(&store.users[i]);
    u1.full_name = full_name.clone();
    let ghost s_before = *store;
    let ghost old_users = store.users@;
    let ghost u1g = u1;
    let _removed = store.users.remove(i);
    store.users.insert(i, u1);
    proof {
        assert(store.users@ =~= old_users.update(i as int, u1g));
        lemma_users_update_wf(s_before, *store, i as int, u1g);
    }
}

} // verus!
