//! Entity types of the tracker and the error kinds its operations report.
//!
//! Instants are unix timestamps in whole seconds (`u64`); calendar dates and
//! identifiers are opaque strings. Roles form the closed three-step hierarchy
//! `superadmin > admin > user`.

use vstd::prelude::*;

verus! {

/// Caller or account privilege level.
#[derive(Clone, Copy, PartialEq, Eq, Structural, Debug)]
pub enum Role {
    User,
    Admin,
    Superadmin,
}

/// Error kinds reported by the core operations.
#[derive(Clone, Copy, PartialEq, Eq, Structural, Debug)]
pub enum OpError {
    /// Malformed or missing required input.
    Validation,
    /// A referenced task, user or timer does not exist.
    NotFound,
    /// A uniqueness constraint would be violated.
    Conflict,
    /// The authorization policy rejected the call.
    Forbidden,
    /// An unexpected internal failure, surfaced generically.
    Internal,
}

/// A trackable unit of work. `total_minutes` and `entry_count` are derived
/// annotations, filled in at read time; the stored record does not own them.
#[derive(Clone, Debug)]
pub struct Task {
    pub id: String,
    pub title: String,
    pub description: String,
    pub category: String,
    pub status: String,
    pub start_date: Option<String>,
    pub due_date: Option<String>,
    pub project_id: Option<String>,
    pub created_at: u64,
    pub updated_at: u64,
    pub total_minutes: u64,
    pub entry_count: u64,
}

/// An immutable closed interval of logged work against a task.
#[derive(Clone, Debug)]
pub struct TimeEntry {
    pub id: String,
    pub task_id: String,
    pub user_id: String,
    pub start_time: u64,
    pub end_time: Option<u64>,
    pub duration_minutes: u64,
    pub notes: String,
    pub created_at: u64,
}

/// A transient marker that a task currently has work in progress; at most one
/// exists per task. `task_title` and `elapsed_seconds` are display
/// annotations, not stored state.
#[derive(Clone, Debug)]
pub struct ActiveTimer {
    pub id: String,
    pub task_id: String,
    pub task_title: String,
    pub start_time: u64,
    pub notes: String,
    pub elapsed_seconds: u64,
    pub created_at: u64,
}

/// A user account.
#[derive(Clone, Debug)]
pub struct User {
    pub id: String,
    pub username: String,
    pub full_name: String,
    pub password_hash: String,
    pub role: Role,
    pub force_change_password: bool,
    pub created_at: u64,
}

/// A project that tasks may optionally belong to; used only for report
/// grouping.
#[derive(Clone, Debug)]
pub struct Project {
    pub id: String,
    pub name: String,
    pub color: String,
}

/// Payload for creating a task.
#[derive(Clone, Debug)]
pub struct CreateTaskRequest {
    pub title: String,
    pub description: Option<String>,
    pub category: Option<String>,
    pub start_date: Option<String>,
    pub due_date: Option<String>,
}

/// Partial update of a task: only the fields that are present are applied.
#[derive(Clone, Debug)]
pub struct UpdateTaskRequest {
    pub title: Option<String>,
    pub description: Option<String>,
    pub category: Option<String>,
    pub status: Option<String>,
    pub start_date: Option<String>,
    pub due_date: Option<String>,
}

/// Payload for starting a timer.
#[derive(Clone, Debug)]
pub struct StartTimerRequest {
    pub notes: Option<String>,
}

/// Payload for deleting several tasks at once.
#[derive(Clone, Debug)]
pub struct BulkDeleteRequest {
    pub ids: Vec<String>,
}

/// Optional date-range bounds for task queries.
#[derive(Clone, Debug)]
pub struct TaskFilter {
    pub start_date: Option<String>,
    pub end_date: Option<String>,
}

/// One row of the time report: total minutes one user logged against one
/// project (`None` project fields stand for entries whose task resolves to no
/// project, or for a user with no entries at all).
#[derive(Clone, Debug)]
pub struct TimeReportRow {
    pub user_id: String,
    pub username: String,
    pub full_name: String,
    pub project_id: Option<String>,
    pub project_name: Option<String>,
    pub project_color: Option<String>,
    pub total_minutes: u64,
}

/// Copy of an optional string with the same value.
pub fn clone_opt(o: &Option<String>) -> (r: Option<String>)
    ensures
        r == *o,
{
    match o {
        Option::Some(s) => Option::Some(s.clone()),
        Option::None => Option::None,
    }
}

/// Copy of a task record with the same value.
pub fn clone_task(t: &Task) -> (r: Task)
    ensures
        r == *t,
{
    Task {
        id: t.id.clone(),
        title: t.title.clone(),
        description: t.description.clone(),
        category: t.category.clone(),
        status: t.status.clone(),
        start_date: clone_opt(&t.start_date),
        due_date: clone_opt(&t.due_date),
        project_id: clone_opt(&t.project_id),
        created_at: t.created_at,
        updated_at: t.updated_at,
        total_minutes: t.total_minutes,
        entry_count: t.entry_count,
    }
}

/// Copy of a time entry with the same value.
pub fn clone_entry(e: &TimeEntry) -> (r: TimeEntry)
    ensures
        r == *e,
{
    TimeEntry {
        id: e.id.clone(),
        task_id: e.task_id.clone(),
        user_id: e.user_id.clone(),
        start_time: e.start_time,
        end_time: e.end_time,
        duration_minutes: e.duration_minutes,
        notes: e.notes.clone(),
        created_at: e.created_at,
    }
}

/// Copy of an active timer with the same value.
pub fn clone_timer(t: &ActiveTimer) -> (r: ActiveTimer)
    ensures
        r == *t,
{
    ActiveTimer {
        id: t.id.clone(),
        task_id: t.task_id.clone(),
        task_title: t.task_title.clone(),
        start_time: t.start_time,
        notes: t.notes.clone(),
        elapsed_seconds: t.elapsed_seconds,
        created_at: t.created_at,
    }
}

/// Copy of a user record with the same value.
pub fn clone_user(u: &User) -> (r: User)
    ensures
        r == *u,
{
    User {
        id: u.id.clone(),
        username: u.username.clone(),
        full_name: u.full_name.clone(),
        password_hash: u.password_hash.clone(),
        role: u.role,
        force_change_password: u.force_change_password,
        created_at: u.created_at,
    }
}

} // verus!
