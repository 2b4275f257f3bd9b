//! The durable-record state that every operation transitions over, with its
//! well-formedness invariant: unique keys, at most one active timer per task,
//! and no time entry or timer referencing a missing task.

use vstd::prelude::*;

use crate::model::ActiveTimer;
use crate::model::Project;
use crate::model::Task;
use crate::model::TimeEntry;
use crate::model::User;
use crate::seqtools::unique_by;

verus! {

/// The full durable state: one record sequence per entity.
pub struct Store {
    pub tasks: Vec<Task>,
    pub entries: Vec<TimeEntry>,
    pub timers: Vec<ActiveTimer>,
    pub users: Vec<User>,
    pub projects: Vec<Project>,
}

/// View of an optional string as an optional character sequence.
pub open spec fn opt_view(o: Option<String>) -> Option<Seq<char>> {
    match o {
        Option::Some(s) => Option::Some(s@),
        Option::None => Option::None,
    }
}

/// Some task in `s` has key `id`.
pub open spec fn has_task(s: Seq<Task>, id: Seq<char>) -> bool {
    exists|i: int| 0 <= i < s.len() && s[i].id@ == id
}

/// Some timer in `s` runs for the task with key `task_id`.
pub open spec fn has_timer(s: Seq<ActiveTimer>, task_id: Seq<char>) -> bool {
    exists|i: int| 0 <= i < s.len() && s[i].task_id@ == task_id
}

/// Some timer in `s` has primary key `id`.
pub open spec fn has_timer_id(s: Seq<ActiveTimer>, id: Seq<char>) -> bool {
    exists|i: int| 0 <= i < s.len() && s[i].id@ == id
}

/// Some entry in `s` has primary key `id`.
pub open spec fn has_entry_id(s: Seq<TimeEntry>, id: Seq<char>) -> bool {
    exists|i: int| 0 <= i < s.len() && s[i].id@ == id
}

/// Some user in `s` has key `id`.
pub open spec fn has_user(s: Seq<User>, id: Seq<char>) -> bool {
    exists|i: int| 0 <= i < s.len() && s[i].id@ == id
}

/// The index of the task with key `id`, provided one exists.
pub open spec fn task_index(s: Seq<Task>, id: Seq<char>) -> int {
    choose|i: int| 0 <= i < s.len() && s[i].id@ == id
}

/// The index of the timer for task `task_id`, provided one exists.
pub open spec fn timer_index(s: Seq<ActiveTimer>, task_id: Seq<char>) -> int {
    choose|i: int| 0 <= i < s.len() && s[i].task_id@ == task_id
}

/// The index of the user with key `id`, provided one exists.
pub open spec fn user_index(s: Seq<User>, id: Seq<char>) -> int {
    choose|i: int| 0 <= i < s.len() && s[i].id@ == id
}

/// Some project in `s` has key `id`.
pub open spec fn has_project(s: Seq<Project>, id: Seq<char>) -> bool {
    exists|i: int| 0 <= i < s.len() && s[i].id@ == id
}

/// The index of the project with key `id`, provided one exists.
pub open spec fn project_index(s: Seq<Project>, id: Seq<char>) -> int {
    choose|i: int| 0 <= i < s.len() && s[i].id@ == id
}

/// All task primary keys are distinct.
pub open spec fn tasks_unique(s: Seq<Task>) -> bool {
    unique_by(s, |t: Task| t.id@)
}

/// All entry primary keys are distinct.
pub open spec fn entries_unique(s: Seq<TimeEntry>) -> bool {
    unique_by(s, |e: TimeEntry| e.id@)
}

/// Timer primary keys are distinct and no two timers share a task: the
/// at-most-one-active-timer-per-task invariant.
pub open spec fn timers_unique(s: Seq<ActiveTimer>) -> bool {
    &&& unique_by(s, |w: ActiveTimer| w.id@)
    &&& unique_by(s, |w: ActiveTimer| w.task_id@)
}

/// All user primary keys are distinct.
pub open spec fn users_unique(s: Seq<User>) -> bool {
    unique_by(s, |u: User| u.id@)
}

/// All project primary keys are distinct.
pub open spec fn projects_unique(s: Seq<Project>) -> bool {
    unique_by(s, |p: Project| p.id@)
}

impl Store {
    /// Well-formedness: distinct keys everywhere, at most one timer per
    /// task, and referential integrity of entries and timers towards tasks.
    pub open spec fn wf(self) -> bool {
        &&& tasks_unique(self.tasks@)
        &&& entries_unique(self.entries@)
        &&& timers_unique(self.timers@)
        &&& users_unique(self.users@)
        &&& projects_unique(self.projects@)
        &&& forall|i: int|
            0 <= i < self.timers@.len() ==> has_task(self.tasks@, #[trigger] self.timers@[i].task_id@)
        &&& forall|i: int|
            0 <= i < self.entries@.len() ==> has_task(self.tasks@, #[trigger] self.entries@[i].task_id@)
    }

    /// Position of the task with key `id`, if any.
    pub fn task_pos(&self, id: &String) -> (r: Option<usize>)
        ensures
            match r {
                Option::Some(i) => i < self.tasks@.len() && self.tasks@[i as int].id@ == id@,
                Option::None => !has_task(self.tasks@, id@),
            },
    {
        let mut i: usize = 0;
        while i < self.tasks.len()
            invariant
                i <= self.tasks@.len(),
                forall|j: int| 0 <= j < i ==> self.tasks@[j].id@ != id@,
            decreases self.tasks@.len() - i,
        {
            if self.tasks[i].id == *id {
                return Option::Some(i);
            }
            i = i + 1;
        }
        Option::None
    }

    /// Position of the active timer for task `task_id`, if any.
    pub fn timer_pos(&self, task_id: &String) -> (r: Option<usize>)
        ensures
            match r {
                Option::Some(i) => i < self.timers@.len() && self.timers@[i as int].task_id@ == task_id@,
                Option::None => !has_timer(self.timers@, task_id@),
            },
    {
        let mut i: usize = 0;
        while i < self.timers.len()
            invariant
                i <= self.timers@.len(),
                forall|j: int| 0 <= j < i ==> self.timers@[j].task_id@ != task_id@,
            decreases self.timers@.len() - i,
        {
            if self.timers[i].task_id == *task_id {
                return Option::Some(i);
            }
            i = i + 1;
        }
        Option::None
    }

    /// Position of the project with key `id`, if any.
    pub fn project_pos(&self, id: &String) -> (r: Option<usize>)
        ensures
            match r {
                Option::Some(i) => i < self.projects@.len() && self.projects@[i as int].id@ == id@,
                Option::None => !has_project(self.projects@, id@),
            },
    {
        let mut i: usize = 0;
        while i < self.projects.len()
            invariant
                i <= self.projects@.len(),
                forall|j: int| 0 <= j < i ==> self.projects@[j].id@ != id@,
            decreases self.projects@.len() - i,
        {
            if self.projects[i].id == *id {
                return Option::Some(i);
            }
            i = i + 1;
        }
        Option::None
    }

    /// Position of the user with key `id`, if any.
    pub fn user_pos(&self, id: &String) -> (r: Option<usize>)
        ensures
            match r {
                Option::Some(i) => i < self.users@.len() && self.users@[i as int].id@ == id@,
                Option::None => !has_user(self.users@, id@),
            },
    {
        let mut i: usize = 0;
        while i < self.users.len()
            invariant
                i <= self.users@.len(),
                forall|j: int| 0 <= j < i ==> self.users@[j].id@ != id@,
            decreases self.users@.len() - i,
        {
            if self.users[i].id == *id {
                return Option::Some(i);
            }
            i = i + 1;
        }
        Option::None
    }
}

} // verus!
