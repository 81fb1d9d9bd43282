use agentflow::executor::{result_from_outcome, task_description, ExecutionResult, TaskExecutor};
use agentflow::lifecycle::{ExitInfo, ProcessOutcome};
use agentflow::types::{
    category_from_str, MemoryCategory, PushConfig, ReceiptStatus, TargetWhitelist, TaskStatus,
};

#[test]
fn status_and_category_labels() {
    assert_eq!(TaskStatus::Pending.as_str(), "pending");
    assert_eq!(TaskStatus::Blocked.as_str(), "blocked");
    assert!(TaskStatus::Completed.is_terminal());
    assert!(TaskStatus::Failed.is_terminal());
    assert!(TaskStatus::Blocked.is_terminal());
    assert!(!TaskStatus::Pending.is_terminal());
    assert!(!TaskStatus::Running.is_terminal());

    for c in [
        MemoryCategory::Execution,
        MemoryCategory::Context,
        MemoryCategory::Result,
        MemoryCategory::Error,
        MemoryCategory::Checkpoint,
    ] {
        assert_eq!(category_from_str(c.as_str()), Some(c));
    }
    assert_eq!(category_from_str("vector"), None);
    assert_eq!(ReceiptStatus::Confirmed.as_str(), "confirmed");
    assert_eq!(ReceiptStatus::Timeout.as_str(), "timeout");
}

fn whitelist() -> TargetWhitelist {
    TargetWhitelist {
        domains: vec![
            (
                String::from("work"),
                vec![String::from("node-a"), String::from("node-b")],
            ),
            (String::from("home"), vec![String::from("node-b"), String::from("node-c")]),
        ],
        memory_boundaries: vec![
            (
                String::from("work/*"),
                vec![String::from("work"), String::from("home")],
            ),
            (String::from("diary/*"), vec![]),
        ],
    }
}

#[test]
fn whitelist_is_allowed() {
    let w = whitelist();
    assert!(w.is_allowed("work/*", "node-a"));
    assert!(w.is_allowed("work/*", "node-c"));
    assert!(!w.is_allowed("work/*", "node-x"));
    // a namespace bound to no domain allows nothing
    assert!(!w.is_allowed("diary/*", "node-a"));
    // an unbound namespace allows nothing
    assert!(!w.is_allowed("unknown/*", "node-a"));
}

#[test]
fn whitelist_allowed_targets_are_deduplicated() {
    let w = whitelist();
    let targets = w.allowed_targets("work/*");
    // node-b is listed by both domains but appears once
    assert_eq!(targets, vec!["node-a", "node-b", "node-c"]);
    assert!(w.allowed_targets("diary/*").is_empty());
    assert!(w.allowed_targets("unknown/*").is_empty());
}

#[test]
fn push_config_defaults() {
    let c = PushConfig::default();
    assert_eq!(c.private_namespaces, vec!["diary/*", "personal/*", "keys/*"]);
    assert_eq!(
        c.public_namespaces,
        vec!["work/*", "blog-drafts/*", "open-source/*"]
    );
    assert!(c.require_encryption);
    assert_eq!(c.push_timeout, 30);
    assert_eq!(c.max_retries, 3);
}

#[test]
fn executor_settings() {
    let mut executor = TaskExecutor::new(String::from("/tmp/agentflow-test"), 60_000);
    assert_eq!(executor.workspace_path(), "/tmp/agentflow-test");
    assert_eq!(executor.timeout(), 60_000);
    executor.set_timeout(120_000);
    assert_eq!(executor.timeout(), 120_000);
}

#[test]
fn execution_result_from_outcomes() {
    let done = result_from_outcome(&ProcessOutcome::Exited(ExitInfo {
        success: true,
        exit_code: Some(0),
    }));
    assert!(done.success);
    assert_eq!(done.exit_code, Some(0));
    assert!(done.stdout.is_empty());

    let timed_out: ExecutionResult = result_from_outcome(&ProcessOutcome::TimedOut);
    assert!(!timed_out.success);
    assert!(timed_out.exit_code.is_none());
}

#[test]
fn task_description_text() {
    let req = agentflow::types::CreateTaskRequest {
        parent_id: None,
        title: String::from("写周报"),
        description: Some(String::from("整理本周进展")),
        group_name: Some(String::from("reports")),
        completion_criteria: None,
        priority: None,
        workspace_dir: None,
        sandboxed: None,
        allow_network: None,
        max_memory: None,
        max_cpu: None,
        created_by: None,
    };
    let t = agentflow::orchestrator::new_task_from_request(req, 1, String::from("uuid-9"), 0);
    let d = task_description(&t);
    assert!(d.contains("uuid-9"));
    assert!(d.contains("写周报"));
    assert!(d.contains("整理本周进展"));
    assert!(d.contains("reports"));
}
