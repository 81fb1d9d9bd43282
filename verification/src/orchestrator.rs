//! Task orchestrator: admission control against a concurrency ceiling,
//! the task status state machine, and decoding of persisted task rows.
//!
//! The admission check and the insertion into the running set are one
//! atomic operation ([`TaskRegistry::try_admit`]), so two concurrent
//! callers can never both pass the capacity check before either takes a
//! slot.  Persistence and process spawning stay with the embedding
//! layer, which drives them with the verified decisions made here.

use vstd::prelude::*;

use crate::strutil::str_eq;
use crate::types::{CreateTaskRequest, Task, TaskPriority, TaskStatus};

verus! {

/// The orchestrator's error taxonomy.
#[derive(Debug, Clone)]
pub enum MasterError {
    /// A storage read or write failed; the task is left in its prior
    /// state.
    Database(String),
    /// No task row with this id.
    TaskNotFound(i64),
    /// The execution itself failed.
    TaskExecution(String),
    /// No worker with this id.
    WorkerNotFound(String),
    /// The request is malformed or not applicable to the task's state.
    InvalidRequest(String),
    /// An internal failure.
    Internal(String),
    /// A memory-store failure.
    Memory(String),
    /// A configuration failure.
    Config(String),
    /// Admission denied at the concurrency ceiling; the caller retries
    /// later, nothing is queued.
    Capacity,
}

impl MasterError {
    /// The HTTP status code the API layer answers with.
    pub fn status_code(&self) -> (c: u16)
        ensures
            c == self.spec_status_code(),
    {
        match self {
            MasterError::TaskNotFound(_) => 404,
            MasterError::WorkerNotFound(_) => 404,
            MasterError::InvalidRequest(_) => 400,
            MasterError::Capacity => 503,
            _ => 500,
        }
    }

    pub open spec fn spec_status_code(self) -> u16 {
        match self {
            MasterError::TaskNotFound(_) => 404,
            MasterError::WorkerNotFound(_) => 404,
            MasterError::InvalidRequest(_) => 400,
            MasterError::Capacity => 503,
            _ => 500,
        }
    }
}

/// Which status changes the orchestrator ever performs.
pub open spec fn can_transition(from: TaskStatus, to: TaskStatus) -> bool {
    match (from, to) {
        (TaskStatus::Pending, TaskStatus::Running) => true,
        (TaskStatus::Running, TaskStatus::Completed) => true,
        (TaskStatus::Running, TaskStatus::Failed) => true,
        (TaskStatus::Running, TaskStatus::Blocked) => true,
        _ => false,
    }
}

/// Terminal states are final: no transition leaves `Completed`, `Failed`
/// or `Blocked`.
pub proof fn lemma_terminal_states_are_final(from: TaskStatus, to: TaskStatus)
    ensures
        from.spec_is_terminal() ==> !can_transition(from, to),
{
}

/// Every transition the orchestrator performs moves toward a terminal
/// state: its target is `Running` or terminal, and never `Pending`.
pub proof fn lemma_transitions_are_monotonic(from: TaskStatus, to: TaskStatus)
    ensures
        can_transition(from, to) ==> to == TaskStatus::Running || to.spec_is_terminal(),
        can_transition(from, to) ==> to != TaskStatus::Pending,
{
}

/// The one status change cancellation may make: `Running -> Blocked`.
/// Any other state refuses with `InvalidRequest`.
pub fn cancel_transition(status: TaskStatus) -> (r: Result<TaskStatus, MasterError>)
    ensures
        status == TaskStatus::Running ==> (r matches Ok(s) && s == TaskStatus::Blocked),
        status != TaskStatus::Running ==> (r matches Err(e) && e is InvalidRequest),
        r matches Ok(s) ==> can_transition(status, s),
{
    match status {
        TaskStatus::Running => Ok(TaskStatus::Blocked),
        _ => Err(
            MasterError::InvalidRequest(
                String::from_str("only a running task can be cancelled"),
            ),
        ),
    }
}

/// The terminal status an execution outcome persists: `Failed` exactly
/// when there is error text, else `Completed`.
pub fn completion_status(error: &Option<String>) -> (s: TaskStatus)
    ensures
        error is Some <==> s == TaskStatus::Failed,
        error is None <==> s == TaskStatus::Completed,
        s.spec_is_terminal(),
        can_transition(TaskStatus::Running, s),
{
    match error {
        Some(_) => TaskStatus::Failed,
        None => TaskStatus::Completed,
    }
}

/// The running-task registry: the set of task ids holding an execution
/// slot, bounded by the concurrency ceiling.
#[derive(Debug, Clone)]
pub struct TaskRegistry {
    /// Ids of the tasks currently holding a slot.
    pub running: Vec<i64>,
    /// The concurrency ceiling.
    pub max_concurrent_tasks: usize,
}

impl TaskRegistry {
    /// The registry never holds more ids than the ceiling.
    pub open spec fn wf(self) -> bool {
        self.running@.len() <= self.max_concurrent_tasks
    }

    /// A fresh, empty registry with the given ceiling.
    pub fn new(max_concurrent_tasks: usize) -> (r: Self)
        ensures
            r.wf(),
            r.running@.len() == 0,
            r.max_concurrent_tasks == max_concurrent_tasks,
    {
        TaskRegistry { running: Vec::new(), max_concurrent_tasks }
    }

    /// Admission control and slot acquisition as one atomic operation:
    /// at the ceiling the request is refused with `Capacity` and nothing
    /// changes; below it the id takes a slot.
    pub fn try_admit(&mut self, task_id: i64) -> (r: Result<(), MasterError>)
        requires
            old(self).wf(),
        ensures
            final(self).wf(),
            final(self).max_concurrent_tasks == old(self).max_concurrent_tasks,
            old(self).running@.len() >= old(self).max_concurrent_tasks ==> (r matches Err(e)
                && e is Capacity && final(self).running@ == old(self).running@),
            old(self).running@.len() < old(self).max_concurrent_tasks ==> (r is Ok
                && final(self).running@ == old(self).running@.push(task_id)),
    {
        if self.running.len() >= self.max_concurrent_tasks {
            Err(MasterError::Capacity)
        } else {
            self.running.push(task_id);
            Ok(())
        }
    }

    /// Release the slot of a task: every occurrence of the id leaves
    /// the registry, whatever else happened to the execution.
    pub fn release(&mut self, task_id: i64)
        requires
            old(self).wf(),
        ensures
            final(self).wf(),
            final(self).max_concurrent_tasks == old(self).max_concurrent_tasks,
            final(self).running@ == old(self).running@.filter(|x: i64| x != task_id),
            !final(self).running@.contains(task_id),
    {
        let ghost all = self.running@;
        let mut kept: Vec<i64> = Vec::new();
        let mut i: usize = 0;
        while i < self.running.len()
            invariant
                0 <= i <= self.running@.len(),
                all == self.running@,
                kept@ == all.take(i as int).filter(|x: i64| x != task_id),
                kept@.len() <= i,
            decreases self.running@.len() - i,
        {
            proof {
                reveal(Seq::filter);
                assert(all.take(i + 1).drop_last() =~= all.take(i as int));
                assert(all.take(i + 1).last() == all[i as int]);
            }
            let id = self.running[i];
            if id != task_id {
                kept.push(id);
            }
            i += 1;
        }
        proof {
            assert(all.take(all.len() as int) =~= all);
            broadcast use vstd::seq_lib::group_seq_properties;

            assert(!kept@.contains(task_id)) by {
                if kept@.contains(task_id) {
                    let j = choose|j: int| 0 <= j < kept@.len() && kept@[j] == task_id;
                    all.lemma_filter_pred(|x: i64| x != task_id, j);
                }
            }
            all.lemma_filter_len(|x: i64| x != task_id);
        }
        self.running = kept;
    }

    /// A copy of the running ids; never more than the ceiling.
    pub fn get_running_ids(&self) -> (ids: Vec<i64>)
        requires
            self.wf(),
        ensures
            ids@ == self.running@,
            ids@.len() <= self.max_concurrent_tasks,
    {
        let mut ids: Vec<i64> = Vec::new();
        let mut i: usize = 0;
        while i < self.running.len()
            invariant
                0 <= i <= self.running@.len(),
                ids@ == self.running@.take(i as int),
            decreases self.running@.len() - i,
        {
            ids.push(self.running[i]);
            proof {
                assert(ids@ =~= self.running@.take(i + 1));
            }
            i += 1;
        }
        proof {
            assert(self.running@.take(self.running@.len() as int) =~= self.running@);
        }
        ids
    }

    /// Whether a task currently holds a slot.
    pub fn is_task_running(&self, task_id: i64) -> (r: bool)
        ensures
            r == self.running@.contains(task_id),
    {
        let mut i: usize = 0;
        while i < self.running.len()
            invariant
                0 <= i <= self.running@.len(),
                forall|j: int| 0 <= j < i ==> self.running@[j] != task_id,
            decreases self.running@.len() - i,
        {
            if self.running[i] == task_id {
                return true;
            }
            i += 1;
        }
        proof {
            assert(!self.running@.contains(task_id)) by {
                if self.running@.contains(task_id) {
                    let j = choose|j: int| 0 <= j < self.running@.len() && self.running@[j]
                        == task_id;
                }
            }
        }
        false
    }

    /// How many tasks hold a slot.
    pub fn running_count(&self) -> (n: usize)
        ensures
            n == self.running@.len(),
    {
        self.running.len()
    }
}

/// The priority requested by a creation request: the labels `low`,
/// `medium` and `high`; anything else gives the default.
pub open spec fn spec_priority_from_label(label: Option<Seq<char>>) -> TaskPriority {
    match label {
        Some(l) => if l == "low"@ {
            TaskPriority::Low
        } else if l == "medium"@ {
            TaskPriority::Medium
        } else if l == "high"@ {
            TaskPriority::High
        } else {
            TaskPriority::Medium
        },
        None => TaskPriority::Medium,
    }
}

/// Parse a requested priority label.
pub fn priority_from_label(label: &Option<String>) -> (p: TaskPriority)
    ensures
        p == spec_priority_from_label(
            match label {
                Some(l) => Some(l@),
                None => None,
            },
        ),
{
    proof {
        reveal_strlit("low");
        reveal_strlit("medium");
        reveal_strlit("high");
    }
    match label {
        Some(l) => {
            if str_eq(l.as_str(), "low") {
                TaskPriority::Low
            } else if str_eq(l.as_str(), "medium") {
                TaskPriority::Medium
            } else if str_eq(l.as_str(), "high") {
                TaskPriority::High
            } else {
                TaskPriority::Medium
            }
        },
        None => TaskPriority::Medium,
    }
}

/// The fresh task row a creation request produces: `Pending`, unlocked,
/// stamped with `now`, its priority read from the request's label and
/// its group defaulted.
pub fn new_task_from_request(req: CreateTaskRequest, id: i64, task_uuid: String, now: i64) -> (t:
    Task)
    ensures
        t.id == id,
        t.task_id == task_uuid,
        t.parent_id == req.parent_id,
        t.title == req.title,
        t.description == req.description,
        t.group_name@ == (match req.group_name {
            Some(g) => g@,
            None => "default"@,
        }),
        t.completion_criteria == req.completion_criteria,
        t.status == TaskStatus::Pending,
        t.priority == spec_priority_from_label(
            match req.priority {
                Some(l) => Some(l@),
                None => None,
            },
        ),
        t.lock_holder is None,
        t.lock_time is None,
        t.result is None,
        t.error is None,
        t.workspace_dir == req.workspace_dir,
        t.sandboxed == (match req.sandboxed {
            Some(b) => b,
            None => false,
        }),
        t.allow_network == (match req.allow_network {
            Some(b) => b,
            None => false,
        }),
        t.max_memory == req.max_memory,
        t.max_cpu == req.max_cpu,
        t.created_by == req.created_by,
        t.created_at == now,
        t.started_at is None,
        t.completed_at is None,
{
    let priority = priority_from_label(&req.priority);
    let group_name = match req.group_name {
        Some(g) => g,
        None => String::from_str("default"),
    };
    Task {
        id,
        task_id: task_uuid,
        parent_id: req.parent_id,
        title: req.title,
        description: req.description,
        group_name,
        completion_criteria: req.completion_criteria,
        status: TaskStatus::Pending,
        priority,
        lock_holder: None,
        lock_time: None,
        result: None,
        error: None,
        workspace_dir: req.workspace_dir,
        sandboxed: match req.sandboxed {
            Some(b) => b,
            None => false,
        },
        allow_network: match req.allow_network {
            Some(b) => b,
            None => false,
        },
        max_memory: req.max_memory,
        max_cpu: req.max_cpu,
        created_by: req.created_by,
        created_at: now,
        started_at: None,
        completed_at: None,
    }
}

/// Decode a persisted task row from its plain column values.  The status
/// label and the priority code decode through their verified parsers;
/// the flag columns read as booleans.
pub fn task_from_row(
    id: i64,
    task_id: String,
    parent_id: Option<i64>,
    title: String,
    description: Option<String>,
    group_name: String,
    completion_criteria: Option<String>,
    status_label: &str,
    priority_code: i32,
    lock_holder: Option<String>,
    lock_time: Option<i64>,
    result: Option<String>,
    error: Option<String>,
    workspace_dir: Option<String>,
    sandboxed_flag: i64,
    allow_network_flag: i64,
    max_memory: Option<String>,
    max_cpu: Option<i32>,
    created_by: Option<String>,
    created_at: i64,
    started_at: Option<i64>,
    completed_at: Option<i64>,
) -> (t: Task)
    ensures
        t.id == id,
        t.task_id == task_id,
        t.parent_id == parent_id,
        t.title == title,
        t.description == description,
        t.group_name == group_name,
        t.completion_criteria == completion_criteria,
        t.status == crate::types::spec_status_from_str(status_label@),
        t.priority == TaskPriority::spec_from_i32(priority_code),
        t.lock_holder == lock_holder,
        t.lock_time == lock_time,
        t.result == result,
        t.error == error,
        t.workspace_dir == workspace_dir,
        t.sandboxed == (sandboxed_flag != 0),
        t.allow_network == (allow_network_flag != 0),
        t.max_memory == max_memory,
        t.max_cpu == max_cpu,
        t.created_by == created_by,
        t.created_at == created_at,
        t.started_at == started_at,
        t.completed_at == completed_at,
{
    Task {
        id,
        task_id,
        parent_id,
        title,
        description,
        group_name,
        completion_criteria,
        status: crate::types::status_from_str(status_label),
        priority: TaskPriority::from_i32(priority_code),
        lock_holder,
        lock_time,
        result,
        error,
        workspace_dir,
        sandboxed: sandboxed_flag != 0,
        allow_network: allow_network_flag != 0,
        max_memory,
        max_cpu,
        created_by,
        created_at,
        started_at,
        completed_at,
    }
}

/// The health label of the orchestrator: `healthy` below the ceiling,
/// `busy` at it.
pub fn health_status(running_count: usize, max_concurrent_tasks: usize) -> (s: &'static str)
    ensures
        running_count < max_concurrent_tasks ==> s@ == "healthy"@,
        running_count >= max_concurrent_tasks ==> s@ == "busy"@,
{
    if running_count < max_concurrent_tasks {
        "healthy"
    } else {
        "busy"
    }
}

} // verus!
