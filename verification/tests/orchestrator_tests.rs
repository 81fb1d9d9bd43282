use agentflow::orchestrator::{
    cancel_transition, completion_status, new_task_from_request, priority_from_label,
    task_from_row, health_status, MasterError, TaskRegistry,
};
use agentflow::types::{CreateTaskRequest, TaskPriority, TaskStatus};

#[test]
fn registry_never_exceeds_the_ceiling() {
    let mut reg = TaskRegistry::new(3);
    assert!(reg.try_admit(1).is_ok());
    assert!(reg.try_admit(2).is_ok());
    assert!(reg.try_admit(3).is_ok());
    assert!(matches!(reg.try_admit(4), Err(MasterError::Capacity)));
    assert_eq!(reg.get_running_ids().len(), 3);
    assert!(reg.get_running_ids().len() <= 3);
    reg.release(2);
    assert_eq!(reg.get_running_ids(), vec![1, 3]);
    assert!(reg.try_admit(4).is_ok());
    assert!(reg.get_running_ids().len() <= 3);
}

#[test]
fn second_execution_at_ceiling_is_rejected_with_capacity() {
    // ceiling one, task A already running: a second execution request is
    // refused with the capacity error; once A completes the set is empty
    let mut reg = TaskRegistry::new(1);
    assert!(reg.try_admit(7).is_ok());
    assert!(matches!(reg.try_admit(7), Err(MasterError::Capacity)));
    assert!(matches!(reg.try_admit(8), Err(MasterError::Capacity)));
    assert!(reg.is_task_running(7));
    reg.release(7);
    assert!(!reg.is_task_running(7));
    assert_eq!(reg.get_running_ids().len(), 0);
    assert_eq!(reg.running_count(), 0);
}

#[test]
fn cancel_only_a_running_task() {
    assert_eq!(cancel_transition(TaskStatus::Running).unwrap(), TaskStatus::Blocked);
    assert!(matches!(
        cancel_transition(TaskStatus::Pending),
        Err(MasterError::InvalidRequest(_))
    ));
    assert!(matches!(
        cancel_transition(TaskStatus::Completed),
        Err(MasterError::InvalidRequest(_))
    ));
    assert!(matches!(
        cancel_transition(TaskStatus::Failed),
        Err(MasterError::InvalidRequest(_))
    ));
    assert!(matches!(
        cancel_transition(TaskStatus::Blocked),
        Err(MasterError::InvalidRequest(_))
    ));
}

#[test]
fn completion_status_follows_the_error_text() {
    assert_eq!(completion_status(&None), TaskStatus::Completed);
    assert_eq!(
        completion_status(&Some(String::from("boom"))),
        TaskStatus::Failed
    );
}

#[test]
fn error_status_codes() {
    assert_eq!(MasterError::TaskNotFound(1).status_code(), 404);
    assert_eq!(MasterError::WorkerNotFound(String::from("w")).status_code(), 404);
    assert_eq!(MasterError::InvalidRequest(String::from("x")).status_code(), 400);
    assert_eq!(MasterError::Capacity.status_code(), 503);
    assert_eq!(MasterError::Database(String::from("x")).status_code(), 500);
    assert_eq!(MasterError::Internal(String::from("x")).status_code(), 500);
}

#[test]
fn priority_labels_and_codes() {
    assert_eq!(priority_from_label(&Some(String::from("low"))), TaskPriority::Low);
    assert_eq!(priority_from_label(&Some(String::from("medium"))), TaskPriority::Medium);
    assert_eq!(priority_from_label(&Some(String::from("high"))), TaskPriority::High);
    assert_eq!(priority_from_label(&Some(String::from("urgent"))), TaskPriority::Medium);
    assert_eq!(priority_from_label(&None), TaskPriority::Medium);

    assert_eq!(TaskPriority::Low.as_i32(), 0);
    assert_eq!(TaskPriority::Medium.as_i32(), 1);
    assert_eq!(TaskPriority::High.as_i32(), 2);
    assert_eq!(TaskPriority::from_i32(0), TaskPriority::Low);
    assert_eq!(TaskPriority::from_i32(1), TaskPriority::Medium);
    assert_eq!(TaskPriority::from_i32(2), TaskPriority::High);
    assert_eq!(TaskPriority::from_i32(99), TaskPriority::Low);
}

#[test]
fn fresh_task_from_a_request() {
    let req = CreateTaskRequest {
        parent_id: None,
        title: String::from("write the report"),
        description: Some(String::from("weekly")),
        group_name: None,
        completion_criteria: None,
        priority: Some(String::from("high")),
        workspace_dir: Some(String::from("/workspace/report")),
        sandboxed: Some(true),
        allow_network: None,
        max_memory: None,
        max_cpu: None,
        created_by: Some(String::from("alex")),
    };
    let t = new_task_from_request(req, 42, String::from("uuid-1"), 1_700_000_000);
    assert_eq!(t.id, 42);
    assert_eq!(t.task_id, "uuid-1");
    assert_eq!(t.status, TaskStatus::Pending);
    assert_eq!(t.priority, TaskPriority::High);
    assert_eq!(t.group_name, "default");
    assert!(t.sandboxed);
    assert!(!t.allow_network);
    assert_eq!(t.created_at, 1_700_000_000);
    assert!(t.started_at.is_none());
    assert!(t.completed_at.is_none());
    assert!(t.lock_holder.is_none());
}

#[test]
fn task_row_decoding() {
    let t = task_from_row(
        7,
        String::from("uuid-7"),
        None,
        String::from("t"),
        None,
        String::from("g"),
        None,
        "running",
        2,
        Some(String::from("master")),
        Some(100),
        None,
        None,
        None,
        1,
        0,
        None,
        None,
        None,
        50,
        Some(60),
        None,
    );
    assert_eq!(t.status, TaskStatus::Running);
    assert_eq!(t.priority, TaskPriority::High);
    assert!(t.sandboxed);
    assert!(!t.allow_network);

    let t2 = task_from_row(
        8,
        String::from("uuid-8"),
        None,
        String::from("t"),
        None,
        String::from("g"),
        None,
        "nonsense",
        -3,
        None,
        None,
        None,
        None,
        None,
        0,
        1,
        None,
        None,
        None,
        50,
        None,
        None,
    );
    assert_eq!(t2.status, TaskStatus::Pending);
    assert_eq!(t2.priority, TaskPriority::Low);
}

#[test]
fn status_labels_round_trip() {
    for s in [
        TaskStatus::Pending,
        TaskStatus::Running,
        TaskStatus::Completed,
        TaskStatus::Failed,
        TaskStatus::Blocked,
    ] {
        assert_eq!(agentflow::types::status_from_str(s.as_str()), s);
    }
    assert_eq!(
        agentflow::types::status_from_str("garbage"),
        TaskStatus::Pending
    );
}

#[test]
fn health_label_follows_the_ceiling() {
    assert_eq!(health_status(0, 10), "healthy");
    assert_eq!(health_status(9, 10), "healthy");
    assert_eq!(health_status(10, 10), "busy");
}
