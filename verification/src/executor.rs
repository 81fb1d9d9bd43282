//! The process-level task executor: its settings and the verified shape
//! of what one execution produces.  Spawning the command, inheriting the
//! environment and driving the lifecycle protocol are the embedding
//! layer's work.

use vstd::prelude::*;

use crate::lifecycle::ProcessOutcome;
use crate::types::Task;

verus! {

/// What one execution produced.
#[derive(Debug, Clone)]
pub struct ExecutionResult {
    pub success: bool,
    pub stdout: String,
    pub stderr: String,
    pub exit_code: Option<i32>,
}

/// Settings of the process-level executor: the validated workspace the
/// command runs in, and its total timeout.
#[derive(Debug, Clone)]
pub struct TaskExecutor {
    /// Working directory of the spawned command.
    pub workspace_path: String,
    /// Total execution timeout, in milliseconds.
    pub timeout_ms: u64,
}

impl TaskExecutor {
    /// A fresh executor.
    pub fn new(workspace_path: String, timeout_ms: u64) -> (e: Self)
        ensures
            e.workspace_path == workspace_path,
            e.timeout_ms == timeout_ms,
    {
        TaskExecutor { workspace_path, timeout_ms }
    }

    /// The configured workspace.
    pub fn workspace_path(&self) -> (p: &String)
        ensures
            p == &self.workspace_path,
    {
        &self.workspace_path
    }

    /// The configured timeout, in milliseconds.
    pub fn timeout(&self) -> (t: u64)
        ensures
            t == self.timeout_ms,
    {
        self.timeout_ms
    }

    /// Change the timeout.
    pub fn set_timeout(&mut self, timeout_ms: u64)
        ensures
            final(self).timeout_ms == timeout_ms,
            final(self).workspace_path == old(self).workspace_path,
    {
        self.timeout_ms = timeout_ms;
    }
}

/// The result record of a supervised execution, before output capture: a
/// natural exit keeps its code and success flag; the synthetic timed-out
/// verdict reads as failure without an exit code.
pub fn result_from_outcome(outcome: &ProcessOutcome) -> (r: ExecutionResult)
    ensures
        match outcome {
            ProcessOutcome::Exited(info) => r.success == info.success && r.exit_code
                == info.exit_code,
            ProcessOutcome::TimedOut => !r.success && r.exit_code is None,
        },
        r.stdout@.len() == 0,
        r.stderr@.len() == 0,
{
    match outcome {
        ProcessOutcome::Exited(info) => ExecutionResult {
            success: info.success,
            stdout: String::new(),
            stderr: String::new(),
            exit_code: info.exit_code,
        },
        ProcessOutcome::TimedOut => ExecutionResult {
            success: false,
            stdout: String::new(),
            stderr: String::new(),
            exit_code: None,
        },
    }
}

/// The description text handed to the command for a task.
pub fn task_description(t: &Task) -> (r: String)
    ensures
        r@ == "任务: "@ + t.task_id@ + "\n\n标题: "@ + t.title@ + "\n描述: "@ + (match t
            .description {
            Some(d) => d@,
            None => "无描述"@,
        }) + "\n\n分组: "@ + t.group_name@ + "\n\n请执行此任务并返回结果。"@,
{
    let desc: &str = match &t.description {
        Some(d) => d.as_str(),
        None => "无描述",
    };
    let r = String::from_str("任务: ").concat(t.task_id.as_str()).concat(
        "\n\n标题: ",
    ).concat(t.title.as_str()).concat("\n描述: ").concat(desc).concat(
        "\n\n分组: ",
    ).concat(t.group_name.as_str()).concat("\n\n请执行此任务并返回结果。");
    proof {
        assert(r@ =~= "任务: "@ + t.task_id@ + "\n\n标题: "@ + t.title@ + "\n描述: "@
            + (match t.description {
            Some(d) => d@,
            None => "无描述"@,
        }) + "\n\n分组: "@ + t.group_name@ + "\n\n请执行此任务并返回结果。"@);
    }
    r
}

} // verus!
