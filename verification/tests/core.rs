use timecore::adapters::create_task_now;
use timecore::auth::delete_user;
use timecore::auth::get_users;
use timecore::auth::update_profile;
use timecore::auth::update_role;
use timecore::model::BulkDeleteRequest;
use timecore::model::CreateTaskRequest;
use timecore::model::OpError;
use timecore::model::Project;
use timecore::model::Role;
use timecore::model::StartTimerRequest;
use timecore::model::TimeEntry;
use timecore::model::User;
use timecore::model::UpdateTaskRequest;
use timecore::report::get_time_report_admin;
use timecore::store::Store;
use timecore::tasks::create_task;
use timecore::tasks::delete_task;
use timecore::tasks::delete_tasks_bulk;
use timecore::tasks::get_tasks;
use timecore::tasks::update_task;
use timecore::timers::start_timer;
use timecore::timers::stop_timer;

fn empty_store() -> Store {
    Store { tasks: vec![], entries: vec![], timers: vec![], users: vec![], projects: vec![] }
}

fn user(id: &str, name: &str, role: Role, created_at: u64) -> User {
    User {
        id: id.to_string(),
        username: name.to_string(),
        full_name: format!("{} full", name),
        password_hash: "x".to_string(),
        role,
        force_change_password: false,
        created_at,
    }
}

fn req(title: &str) -> CreateTaskRequest {
    CreateTaskRequest {
        title: title.to_string(),
        description: None,
        category: None,
        start_date: None,
        due_date: None,
    }
}

#[test]
fn scenario_start_conflict_stop_rounds_up() {
    let mut s = empty_store();
    let t = create_task(&mut s, &req("Write spec"), "t1".to_string(), 1000).unwrap();
    assert_eq!(t.title, "Write spec");
    assert_eq!(t.status, "pending");
    assert_eq!(t.category, "General");

    let t0: u64 = 2000;
    let w = start_timer(&mut s, &"t1".to_string(), &StartTimerRequest { notes: None }, "w1".to_string(), t0);
    assert!(w.is_ok());
    let again = start_timer(&mut s, &"t1".to_string(), &StartTimerRequest { notes: None }, "w2".to_string(), t0);
    assert_eq!(again.unwrap_err(), OpError::Conflict);

    let e = stop_timer(&mut s, &"t1".to_string(), &"u1".to_string(), "e1".to_string(), t0 + 90).unwrap();
    // 90 seconds round half-up to 2 minutes
    assert_eq!(e.duration_minutes, 2);
    assert_eq!(s.timers.len(), 0);
    assert_eq!(s.entries.len(), 1);

    let listed = get_tasks(&s);
    assert_eq!(listed.len(), 1);
    assert_eq!(listed[0].total_minutes, 2);
    assert_eq!(listed[0].entry_count, 1);
}

#[test]
fn stop_rounds_down_under_half_minute() {
    let mut s = empty_store();
    create_task(&mut s, &req("a"), "t1".to_string(), 1).unwrap();
    start_timer(&mut s, &"t1".to_string(), &StartTimerRequest { notes: None }, "w1".to_string(), 100).unwrap();
    let e = stop_timer(&mut s, &"t1".to_string(), &"u1".to_string(), "e1".to_string(), 100 + 89).unwrap();
    assert_eq!(e.duration_minutes, 1);
}

#[test]
fn stop_clamps_clock_skew_to_zero() {
    let mut s = empty_store();
    create_task(&mut s, &req("a"), "t1".to_string(), 1).unwrap();
    start_timer(&mut s, &"t1".to_string(), &StartTimerRequest { notes: None }, "w1".to_string(), 500).unwrap();
    let e = stop_timer(&mut s, &"t1".to_string(), &"u1".to_string(), "e1".to_string(), 400).unwrap();
    assert_eq!(e.duration_minutes, 0);
}

#[test]
fn aggregates_sum_and_count() {
    let mut s = empty_store();
    create_task(&mut s, &req("a"), "t1".to_string(), 10).unwrap();
    create_task(&mut s, &req("b"), "t2".to_string(), 20).unwrap();
    for (i, d) in [(1u64, 5u64), (2, 7), (3, 11)] {
        s.entries.push(TimeEntry {
            id: format!("e{}", i),
            task_id: "t1".to_string(),
            user_id: "u1".to_string(),
            start_time: 0,
            end_time: Some(0),
            duration_minutes: d,
            notes: String::new(),
            created_at: 0,
        });
    }
    let listed = get_tasks(&s);
    // ordered by updated_at descending: t2 (20) before t1 (10)
    assert_eq!(listed[0].id, "t2");
    assert_eq!(listed[0].total_minutes, 0);
    assert_eq!(listed[0].entry_count, 0);
    assert_eq!(listed[1].id, "t1");
    assert_eq!(listed[1].total_minutes, 23);
    assert_eq!(listed[1].entry_count, 3);
}

#[test]
fn create_task_rejects_empty_title() {
    let mut s = empty_store();
    let r = create_task(&mut s, &req(""), "t1".to_string(), 1);
    assert_eq!(r.unwrap_err(), OpError::Validation);
    assert!(s.tasks.is_empty());
}

#[test]
fn create_task_now_draws_fresh_key() {
    let mut s = empty_store();
    let t = create_task_now(&mut s, &req("fresh")).unwrap();
    assert_eq!(t.id.len(), 36);
    assert_eq!(s.tasks.len(), 1);
}

#[test]
fn update_task_normalizes_dates_and_refreshes_timestamp() {
    let mut s = empty_store();
    let mut r = req("a");
    r.due_date = Some("2024-01-01".to_string());
    create_task(&mut s, &r, "t1".to_string(), 10).unwrap();
    let upd = UpdateTaskRequest {
        title: Some("b".to_string()),
        description: None,
        category: None,
        status: Some("done".to_string()),
        start_date: None,
        due_date: Some(String::new()),
    };
    let t = update_task(&mut s, &"t1".to_string(), &upd, 99).unwrap();
    assert_eq!(t.title, "b");
    assert_eq!(t.status, "done");
    assert_eq!(t.due_date, None);
    assert_eq!(t.updated_at, 99);
    assert_eq!(t.created_at, 10);

    let missing = update_task(&mut s, &"nope".to_string(), &upd, 100);
    assert_eq!(missing.unwrap_err(), OpError::NotFound);
}

#[test]
fn cascade_delete_removes_entries_and_timer() {
    let mut s = empty_store();
    create_task(&mut s, &req("a"), "t1".to_string(), 1).unwrap();
    start_timer(&mut s, &"t1".to_string(), &StartTimerRequest { notes: None }, "w1".to_string(), 5).unwrap();
    s.entries.push(TimeEntry {
        id: "e1".to_string(),
        task_id: "t1".to_string(),
        user_id: "u1".to_string(),
        start_time: 0,
        end_time: Some(0),
        duration_minutes: 3,
        notes: String::new(),
        created_at: 0,
    });
    delete_task(&mut s, &"t1".to_string());
    assert!(s.tasks.is_empty());
    assert!(s.entries.is_empty());
    assert!(s.timers.is_empty());
    assert!(get_tasks(&s).is_empty());
}

#[test]
fn bulk_delete_counts_ids_processed() {
    let mut s = empty_store();
    create_task(&mut s, &req("a"), "t1".to_string(), 1).unwrap();
    create_task(&mut s, &req("b"), "t2".to_string(), 2).unwrap();
    let n = delete_tasks_bulk(
        &mut s,
        &BulkDeleteRequest { ids: vec!["t1".to_string(), "t1".to_string(), "ghost".to_string()] },
    );
    assert_eq!(n, 3);
    assert_eq!(s.tasks.len(), 1);
    assert_eq!(s.tasks[0].id, "t2");
}

#[test]
fn stop_without_timer_is_not_found() {
    let mut s = empty_store();
    create_task(&mut s, &req("a"), "t1".to_string(), 1).unwrap();
    let r = stop_timer(&mut s, &"t1".to_string(), &"u1".to_string(), "e1".to_string(), 9);
    assert_eq!(r.unwrap_err(), OpError::NotFound);
}

#[test]
fn start_timer_for_missing_task_is_not_found() {
    let mut s = empty_store();
    let r = start_timer(&mut s, &"nope".to_string(), &StartTimerRequest { notes: None }, "w1".to_string(), 1);
    assert_eq!(r.unwrap_err(), OpError::NotFound);
}

#[test]
fn role_hierarchy_matrix() {
    let base = || {
        let mut s = empty_store();
        s.users.push(user("su", "su", Role::Superadmin, 1));
        s.users.push(user("ad", "ad", Role::Admin, 2));
        s.users.push(user("us", "us", Role::User, 3));
        s
    };
    // admin deleting admin: forbidden
    let mut s = base();
    let r = delete_user(&mut s, &"ad2".to_string(), Role::Admin, &"ad".to_string());
    assert_eq!(r.unwrap_err(), OpError::Forbidden);
    // superadmin deleting admin: succeeds
    let mut s = base();
    assert!(delete_user(&mut s, &"su".to_string(), Role::Superadmin, &"ad".to_string()).is_ok());
    assert_eq!(s.users.len(), 2);
    // nobody deletes a superadmin
    let mut s = base();
    let r = delete_user(&mut s, &"ad".to_string(), Role::Superadmin, &"su".to_string());
    assert_eq!(r.unwrap_err(), OpError::Forbidden);
    // admin deleting plain user: succeeds
    let mut s = base();
    assert!(delete_user(&mut s, &"ad".to_string(), Role::Admin, &"us".to_string()).is_ok());
    // plain user callers are always forbidden
    let mut s = base();
    let r = delete_user(&mut s, &"us".to_string(), Role::User, &"us2".to_string());
    assert_eq!(r.unwrap_err(), OpError::Forbidden);
    // self-delete is forbidden
    let mut s = base();
    let r = delete_user(&mut s, &"ad".to_string(), Role::Admin, &"ad".to_string());
    assert_eq!(r.unwrap_err(), OpError::Forbidden);
    // missing target
    let mut s = base();
    let r = delete_user(&mut s, &"su".to_string(), Role::Superadmin, &"nope".to_string());
    assert_eq!(r.unwrap_err(), OpError::NotFound);
}

#[test]
fn admin_cannot_promote_to_admin() {
    let mut s = empty_store();
    s.users.push(user("us", "us", Role::User, 1));
    let r = update_role(&mut s, &"ad".to_string(), Role::Admin, &"us".to_string(), &"admin".to_string());
    assert_eq!(r.unwrap_err(), OpError::Validation);
}

#[test]
fn superadmin_promotes_and_self_change_rejected() {
    let mut s = empty_store();
    s.users.push(user("su", "su", Role::Superadmin, 1));
    s.users.push(user("us", "us", Role::User, 2));
    assert!(update_role(&mut s, &"su".to_string(), Role::Superadmin, &"us".to_string(), &"admin".to_string()).is_ok());
    assert_eq!(s.users[1].role, Role::Admin);
    let r = update_role(&mut s, &"su".to_string(), Role::Superadmin, &"su".to_string(), &"admin".to_string());
    assert_eq!(r.unwrap_err(), OpError::Validation);
}

#[test]
fn get_users_scoping_and_order() {
    let mut s = empty_store();
    s.users.push(user("a", "a", Role::User, 1));
    s.users.push(user("b", "b", Role::Admin, 2));
    s.users.push(user("c", "c", Role::User, 3));
    let all = get_users(&s, Role::Superadmin).unwrap();
    assert_eq!(all.len(), 3);
    assert_eq!(all[0].id, "c");
    assert_eq!(all[2].id, "a");
    let plain = get_users(&s, Role::Admin).unwrap();
    assert_eq!(plain.len(), 2);
    assert!(plain.iter().all(|u| u.role == Role::User));
    assert_eq!(get_users(&s, Role::User).unwrap_err(), OpError::Forbidden);
}

#[test]
fn update_profile_changes_only_full_name() {
    let mut s = empty_store();
    s.users.push(user("a", "a", Role::User, 1));
    update_profile(&mut s, &"a".to_string(), &"New Name".to_string());
    assert_eq!(s.users[0].full_name, "New Name");
    assert_eq!(s.users[0].username, "a");
    // unknown caller: silent no-op
    update_profile(&mut s, &"ghost".to_string(), &"X".to_string());
    assert_eq!(s.users.len(), 1);
}

#[test]
fn report_scoping_and_totals() {
    let mut s = empty_store();
    s.users.push(user("ua", "alice", Role::User, 1));
    s.users.push(user("ub", "bob", Role::Admin, 2));
    s.projects.push(Project { id: "p1".to_string(), name: "Site".to_string(), color: "red".to_string() });
    create_task(&mut s, &req("a"), "t1".to_string(), 1).unwrap();
    s.tasks[0].project_id = Some("p1".to_string());
    s.entries.push(TimeEntry {
        id: "e1".to_string(),
        task_id: "t1".to_string(),
        user_id: "ua".to_string(),
        start_time: 0,
        end_time: Some(0),
        duration_minutes: 30,
        notes: String::new(),
        created_at: 0,
    });
    let admin_rows = get_time_report_admin(&s, Role::Admin).unwrap();
    assert_eq!(admin_rows.len(), 1);
    assert_eq!(admin_rows[0].user_id, "ua");
    assert_eq!(admin_rows[0].project_id.as_deref(), Some("p1"));
    assert_eq!(admin_rows[0].project_name.as_deref(), Some("Site"));
    assert_eq!(admin_rows[0].total_minutes, 30);

    let super_rows = get_time_report_admin(&s, Role::Superadmin).unwrap();
    assert_eq!(super_rows.len(), 2);
    assert!(super_rows.iter().any(|r| r.user_id == "ub" && r.project_id.is_none() && r.total_minutes == 0));

    assert_eq!(get_time_report_admin(&s, Role::User).unwrap_err(), OpError::Forbidden);
}

#[test]
fn reset_password_respects_hierarchy() {
    let mut s = empty_store();
    s.users.push(user("su", "su", Role::Superadmin, 1));
    s.users.push(user("us", "us", Role::User, 2));
    let r = timecore::adapters::reset_password(&mut s, Role::Admin, &"su".to_string(), &"pw".to_string());
    assert_eq!(r.unwrap_err(), OpError::Forbidden);
    let old_hash = s.users[1].password_hash.clone();
    let r = timecore::adapters::reset_password(&mut s, Role::Admin, &"us".to_string(), &"pw".to_string());
    assert!(r.is_ok());
    assert!(s.users[1].force_change_password);
    assert_ne!(s.users[1].password_hash, old_hash);
}
