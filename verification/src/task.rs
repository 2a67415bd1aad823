//! Tasks and the queue that keeps them.

use vstd::prelude::*;
use crate::storage_error::StorageError;

verus! {

/// A point in time: whole seconds since the Unix epoch, and the nanoseconds
/// beyond them.
#[derive(Debug, Clone, Copy, PartialEq, Eq, Structural)]
pub struct Timestamp {
    pub seconds: i64,
    pub nanos: u32,
}

/// The kind of work that a task stands for.
#[derive(Debug, Clone, Copy, PartialEq, Eq, Structural)]
pub enum TaskType {
    Scraper,
}

/// How far a task has come.
#[derive(Debug, Clone, Copy, PartialEq, Eq, Structural)]
pub enum TaskStatus {
    Pending,
    Running,
    Success,
    Failed,
}

/// The name under which a status is stored.
pub open spec fn status_name(status: TaskStatus) -> Seq<char> {
    match status {
        TaskStatus::Pending => "pending"@,
        TaskStatus::Running => "running"@,
        TaskStatus::Success => "success"@,
        TaskStatus::Failed => "failed"@,
    }
}

/// The status that a name stands for.
pub open spec fn status_named(name: Seq<char>) -> Option<TaskStatus> {
    if name == "pending"@ {
        Some(TaskStatus::Pending)
    } else if name == "running"@ {
        Some(TaskStatus::Running)
    } else if name == "success"@ {
        Some(TaskStatus::Success)
    } else if name == "failed"@ {
        Some(TaskStatus::Failed)
    } else {
        None
    }
}

/// A status is read back from its own name.
pub proof fn law_status_round_trip(status: TaskStatus)
    ensures
        status_named(status_name(status)) == Some(status),
{
    reveal_strlit("pending");
    reveal_strlit("running");
    reveal_strlit("success");
    reveal_strlit("failed");
    assert("pending"@[0] != "running"@[0]);
    assert("pending"@[0] != "success"@[0]);
    assert("pending"@.len() != "failed"@.len());
    assert("running"@[0] != "success"@[0]);
    assert("running"@.len() != "failed"@.len());
    assert("success"@.len() != "failed"@.len());
}

impl TaskStatus {
    /// The name under which the status is stored.
    pub fn as_str(&self) -> (r: &'static str)
        ensures
            r@ == status_name(*self),
    {
        match self {
            Self::Pending => "pending",
            Self::Running => "running",
            Self::Success => "success",
            Self::Failed => "failed",
        }
    }

    /// The status that the name stands for; none for any other text.
    pub fn from_str(s: &str) -> (r: Option<Self>)
        ensures
            r == status_named(s@),
    {
        let name = s.to_owned();
        if name == "pending".to_owned() {
            Some(Self::Pending)
        } else if name == "running".to_owned() {
            Some(Self::Running)
        } else if name == "success".to_owned() {
            Some(Self::Success)
        } else if name == "failed".to_owned() {
            Some(Self::Failed)
        } else {
            None
        }
    }
}

/// A task as mathematics.
pub struct TaskView {
    pub id: i64,
    pub task_type: TaskType,
    pub task_status: TaskStatus,
    pub task_params: Seq<char>,
    pub created_at: Timestamp,
    pub updated_at: Timestamp,
}

/// A unit of work with its parameters and its times.
#[derive(Debug, PartialEq)]
pub struct Task {
    pub id: i64,
    pub task_type: TaskType,
    pub task_status: TaskStatus,
    pub task_params: String,
    pub created_at: Timestamp,
    pub updated_at: Timestamp,
}

impl View for Task {
    type V = TaskView;

    open spec fn view(&self) -> TaskView {
        TaskView {
            id: self.id,
            task_type: self.task_type,
            task_status: self.task_status,
            task_params: self.task_params@,
            created_at: self.created_at,
            updated_at: self.updated_at,
        }
    }
}

impl Clone for Task {
    fn clone(&self) -> (r: Self)
        ensures
            r@ == self@,
    {
        Task {
            id: self.id,
            task_type: self.task_type,
            task_status: self.task_status,
            task_params: self.task_params.clone(),
            created_at: self.created_at,
            updated_at: self.updated_at,
        }
    }
}

/// The tasks that a list holds.
pub open spec fn tasks_view(tasks: Seq<Task>) -> Seq<TaskView> {
    tasks.map_values(|task: Task| task@)
}

/// The task that a queue makes of the given parts: pending, under the id
/// that follows the number of tasks, made and changed at `now`.
pub open spec fn new_task(
    tasks: Seq<TaskView>,
    task_type: TaskType,
    task_params: Seq<char>,
    now: Timestamp,
) -> TaskView {
    TaskView {
        id: (tasks.len() + 1) as i64,
        task_type,
        task_status: TaskStatus::Pending,
        task_params,
        created_at: now,
        updated_at: now,
    }
}

/// Whether a query returns the task: it is of the type and in the status
/// asked for, where one is asked for.
pub open spec fn queried(
    task_type: Option<TaskType>,
    task_status: Option<TaskStatus>,
    task: TaskView,
) -> bool {
    &&& task_type matches Some(wanted) ==> task.task_type == wanted
    &&& task_status matches Some(wanted) ==> task.task_status == wanted
}

/// The test that a query applies to each task.
pub open spec fn query_test(task_type: Option<TaskType>, task_status: Option<TaskStatus>)
    -> spec_fn(TaskView) -> bool {
    |task: TaskView| queried(task_type, task_status, task)
}

/// The index of the first task at or after `from` that has the id, or the
/// length of the list when none has.
pub open spec fn task_from(tasks: Seq<TaskView>, id: i64, from: int) -> int
    decreases tasks.len() - from,
{
    if from < 0 || from >= tasks.len() {
        tasks.len() as int
    } else if tasks[from].id == id {
        from
    } else {
        task_from(tasks, id, from + 1)
    }
}

/// The index of the first task with the id, or the length of the list.
pub open spec fn task_index(tasks: Seq<TaskView>, id: i64) -> int {
    task_from(tasks, id, 0)
}

/// Whether a task has the id.
pub open spec fn has_task(tasks: Seq<TaskView>, id: i64) -> bool {
    task_index(tasks, id) < tasks.len()
}

/// The given task as it is stored by an update: stamped with `now`.
pub open spec fn stamped(task: TaskView, now: Timestamp) -> TaskView {
    TaskView { updated_at: now, ..task }
}

/// What a keeper of tasks holds: the tasks, in the order in which they were
/// made.
pub struct TasksView {
    pub tasks: Seq<TaskView>,
}

/// A keeper of tasks.
///
/// An implementation states the tasks that it holds, and whether its
/// requests can fail for reasons of its own; a failed request changes
/// nothing. The time of a request is handed in by the caller.
pub trait TaskManager {
    /// What the keeper holds.
    spec fn contents(&self) -> TasksView;

    /// The tasks, in the order in which they were made.
    open spec fn tasks(&self) -> Seq<TaskView> {
        self.contents().tasks
    }

    /// Whether every request that the state allows succeeds.
    spec fn never_fails(&self) -> bool;

    /// Makes a pending task and returns it.
    fn create_task(&mut self, task_type: TaskType, task_params: String, now: Timestamp) -> (r:
        Result<Task, StorageError>)
        requires
            old(self).tasks().len() < i64::MAX,
        ensures
            final(self).never_fails() == old(self).never_fails(),
            r matches Ok(task) ==> {
                &&& task@ == new_task(old(self).tasks(), task_type, task_params@, now)
                &&& final(self).tasks() == old(self).tasks().push(task@)
            },
            r is Err ==> final(self).tasks() == old(self).tasks(),
            old(self).never_fails() ==> r is Ok,
    ;

    /// The tasks of the type and in the status asked for; where none is asked
    /// for, any will do.
    fn query_tasks(&self, task_type: Option<TaskType>, task_status: Option<TaskStatus>) -> (r:
        Result<Vec<Task>, StorageError>)
        ensures
            r matches Ok(found) ==> tasks_view(found@) == self.tasks().filter(
                query_test(task_type, task_status),
            ),
            self.never_fails() ==> r is Ok,
    ;

    /// Puts the given task in the place of the first task with its id,
    /// stamped with `now`, and returns it as stored. `NotFound` with the id
    /// when no task has it.
    fn update_task(&mut self, task: Task, now: Timestamp) -> (r: Result<Task, StorageError>)
        ensures
            final(self).never_fails() == old(self).never_fails(),
            r matches Ok(stored) ==> {
                &&& has_task(old(self).tasks(), task.id)
                &&& stored@ == stamped(task@, now)
                &&& final(self).tasks() == old(self).tasks().update(
                    task_index(old(self).tasks(), task.id),
                    stored@,
                )
            },
            r is Err ==> final(self).tasks() == old(self).tasks(),
            !has_task(old(self).tasks(), task.id) ==> (r matches Err(
                StorageError::NotFound { task_id },
            ) && task_id == task.id),
            old(self).never_fails() && has_task(old(self).tasks(), task.id) ==> r is Ok,
    ;
}

/// A keeper of tasks in memory.
#[derive(Debug)]
pub struct MemoryTaskManager {
    pub storage: Vec<Task>,
}

impl MemoryTaskManager {
    /// A keeper without tasks.
    pub fn new() -> (r: Self)
        ensures
            r.tasks() == Seq::<TaskView>::empty(),
    {
        let r = MemoryTaskManager { storage: Vec::new() };
        r
    }

    /// The number of tasks.
    pub fn len(&self) -> (r: usize)
        ensures
            r == self.tasks().len(),
    {
        self.storage.len()
    }

    /// The index of the first task with the id, or the number of tasks.
    fn position(tasks: &Vec<Task>, id: i64) -> (r: usize)
        ensures
            r == task_index(tasks_view(tasks@), id),
            r <= tasks@.len(),
    {
        let mut i: usize = 0;
        while i < tasks.len()
            invariant
                i <= tasks.len(),
                task_index(tasks_view(tasks@), id) == task_from(tasks_view(tasks@), id, i as int),
            decreases tasks.len() - i,
        {
            if tasks[i].id == id {
                return i;
            }
            i += 1;
        }
        i
    }
}

impl TaskManager for MemoryTaskManager {
    open spec fn contents(&self) -> TasksView {
        TasksView { tasks: tasks_view(self.storage@) }
    }

    open spec fn never_fails(&self) -> bool {
        true
    }

    fn create_task(&mut self, task_type: TaskType, task_params: String, now: Timestamp) -> (r:
        Result<Task, StorageError>) {
        let count = self.storage.len();
        let new_task = Task {
            id: count as i64 + 1,
            task_type,
            task_status: TaskStatus::Pending,
            task_params,
            created_at: now,
            updated_at: now,
        };
        let ghost before = tasks_view(self.storage@);
        self.storage.push(new_task.clone());
        Ok(new_task)
    }

    fn query_tasks(&self, task_type: Option<TaskType>, task_status: Option<TaskStatus>) -> (r:
        Result<Vec<Task>, StorageError>) {
        let ghost wanted = query_test(task_type, task_status);
        let ghost all = tasks_view(self.storage@);
        let mut found: Vec<Task> = Vec::new();
        let mut i: usize = 0;
        while i < self.storage.len()
            invariant
                i <= self.storage.len(),
                all == tasks_view(self.storage@),
                wanted == query_test(task_type, task_status),
                tasks_view(found@) == all.take(i as int).filter(wanted),
            decreases self.storage.len() - i,
        {
            let task = &self.storage[i];
            proof {
                let seen = all.take(i as int);
                seen.lemma_filter_push(task@, wanted);
                assert(seen.push(task@) =~= all.take(i + 1));
            }
            let of_type = match task_type {
                Some(wanted_type) => task.task_type == wanted_type,
                None => true,
            };
            let in_status = match task_status {
                Some(wanted_status) => task.task_status == wanted_status,
                None => true,
            };
            if of_type && in_status {
                found.push(task.clone());
            }
            i += 1;
        }
        assert(all.take(i as int) =~= all);
        Ok(found)
    }

    fn update_task(&mut self, task: Task, now: Timestamp) -> (r: Result<Task, StorageError>)
    {
        let index = Self::position(&self.storage, task.id);
        if index >= self.storage.len() {
            return Err(StorageError::NotFound { task_id: task.id });
        }
        let mut updated = task;
        updated.updated_at = now;
        self.storage.set(index, updated.clone());
        Ok(updated)
    }
}

} // verus!
