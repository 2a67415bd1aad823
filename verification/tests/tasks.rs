use soapdav::storage_error::StorageError;
use soapdav::storage_error::TaskError;
use soapdav::task::MemoryTaskManager;
use soapdav::task::Task;
use soapdav::task::TaskManager;
use soapdav::task::TaskStatus;
use soapdav::task::TaskType;
use soapdav::task::Timestamp;

fn at(seconds: i64) -> Timestamp {
    Timestamp { seconds, nanos: 0 }
}

#[test]
fn test_mem_task_manager() {
    let mut manager = MemoryTaskManager::new();
    {
        let result = manager.create_task(TaskType::Scraper, "true".into(), at(1));
        assert!(result.is_ok());
    }
    {
        let result = manager.query_tasks(Some(TaskType::Scraper), Some(TaskStatus::Pending));
        assert!(result.is_ok());
        assert_eq!(result.unwrap().len(), 1)
    }
}

#[test]
fn a_new_task_is_pending_and_numbered_after_the_tasks_before_it() {
    let mut manager = MemoryTaskManager::new();
    let first = manager.create_task(TaskType::Scraper, String::from("a"), at(10)).unwrap();
    let second = manager.create_task(TaskType::Scraper, String::from("b"), at(20)).unwrap();
    assert_eq!(
        first,
        Task {
            id: 1,
            task_type: TaskType::Scraper,
            task_status: TaskStatus::Pending,
            task_params: String::from("a"),
            created_at: at(10),
            updated_at: at(10),
        }
    );
    assert_eq!(second.id, 2);
    assert_eq!(second.created_at, at(20));
    assert_eq!(manager.len(), 2);
    assert_eq!(manager.storage[1], second);
}

#[test]
fn a_query_filters_by_type_and_status_where_they_are_given() {
    let mut manager = MemoryTaskManager::new();
    let one = manager.create_task(TaskType::Scraper, String::from("a"), at(1)).unwrap();
    manager.create_task(TaskType::Scraper, String::from("b"), at(2)).unwrap();
    let mut running = one.clone();
    running.task_status = TaskStatus::Running;
    manager.update_task(running, at(3)).unwrap();
    let ids = |tasks: Vec<Task>| tasks.iter().map(|t| t.id).collect::<Vec<i64>>();
    assert_eq!(ids(manager.query_tasks(None, None).unwrap()), vec![1, 2]);
    assert_eq!(ids(manager.query_tasks(Some(TaskType::Scraper), None).unwrap()), vec![1, 2]);
    assert_eq!(ids(manager.query_tasks(None, Some(TaskStatus::Running)).unwrap()), vec![1]);
    assert_eq!(
        ids(manager.query_tasks(Some(TaskType::Scraper), Some(TaskStatus::Pending)).unwrap()),
        vec![2]
    );
    assert!(manager.query_tasks(None, Some(TaskStatus::Failed)).unwrap().is_empty());
}

#[test]
fn an_update_replaces_the_task_and_stamps_it() {
    let mut manager = MemoryTaskManager::new();
    let made = manager.create_task(TaskType::Scraper, String::from("a"), at(1)).unwrap();
    let mut changed = made.clone();
    changed.task_status = TaskStatus::Success;
    changed.task_params = String::from("z");
    let stored = manager.update_task(changed, at(9)).unwrap();
    assert_eq!(stored.task_status, TaskStatus::Success);
    assert_eq!(stored.task_params, "z");
    assert_eq!(stored.created_at, at(1));
    assert_eq!(stored.updated_at, at(9));
    assert_eq!(manager.storage[0], stored);
    assert_eq!(manager.len(), 1);
}

#[test]
fn an_update_of_an_unknown_task_is_not_found() {
    let mut manager = MemoryTaskManager::new();
    let made = manager.create_task(TaskType::Scraper, String::from("a"), at(1)).unwrap();
    let mut stranger = made.clone();
    stranger.id = 42;
    match manager.update_task(stranger, at(2)) {
        Err(StorageError::NotFound { task_id }) => assert_eq!(task_id, 42),
        other => panic!("unexpected: {:?}", other),
    }
    assert_eq!(manager.storage[0], made);
}

#[test]
fn a_status_and_its_name() {
    assert_eq!(TaskStatus::Pending.as_str(), "pending");
    assert_eq!(TaskStatus::Running.as_str(), "running");
    assert_eq!(TaskStatus::Success.as_str(), "success");
    assert_eq!(TaskStatus::Failed.as_str(), "failed");
    for status in [
        TaskStatus::Pending,
        TaskStatus::Running,
        TaskStatus::Success,
        TaskStatus::Failed,
    ] {
        assert_eq!(TaskStatus::from_str(status.as_str()), Some(status));
    }
    assert_eq!(TaskStatus::from_str("Pending"), None);
    assert_eq!(TaskStatus::from_str(""), None);
    assert_eq!(TaskStatus::from_str("done"), None);
}

#[test]
fn a_json_error_becomes_invalid_parameters() {
    let bad = serde_json::from_str::<serde_json::Value>("{").unwrap_err();
    let text = bad.to_string();
    match StorageError::from(bad) {
        StorageError::InvalidParams { message, params } => {
            assert_eq!(message, format!("JSON parse error: {}", text));
            assert!(params.is_null());
        }
        other => panic!("unexpected: {:?}", other),
    }
    let bad = serde_json::from_str::<serde_json::Value>("[1,").unwrap_err();
    let text = bad.to_string();
    match TaskError::from(bad) {
        TaskError::InvalidParams { message, params } => {
            assert_eq!(message, format!("JSON parse error: {}", text));
            assert!(params.is_null());
        }
        other => panic!("unexpected: {:?}", other),
    }
    let bad = serde_json::from_str::<serde_json::Value>("nul").unwrap_err();
    assert!(matches!(StorageError::from_json_error(bad), StorageError::InvalidParams { .. }));
    let bad = serde_json::from_str::<serde_json::Value>("nul").unwrap_err();
    assert!(matches!(TaskError::from_json_error(bad), TaskError::InvalidParams { .. }));
}

#[test]
fn the_errors_of_the_stores_in_words() {
    assert_eq!(StorageError::NotFound { task_id: 42 }.message(), "Task not found: 42");
    assert_eq!(StorageError::NotFound { task_id: -5 }.message(), "Task not found: -5");
    assert_eq!(
        StorageError::NotFound { task_id: i64::MIN }.message(),
        "Task not found: -9223372036854775808"
    );
    assert_eq!(
        StorageError::InvalidStatusTransition {
            from: String::from("pending"),
            to: String::from("success"),
        }
        .message(),
        "Invalid task status transition: pending -> success"
    );
    assert_eq!(
        StorageError::InvalidParams {
            message: String::from("bad"),
            params: serde_json::Value::Null,
        }
        .message(),
        "Invalid task parameters: bad"
    );
    assert_eq!(StorageError::ConcurrentUpdate.message(), "Concurrent modification detected");
    assert_eq!(
        StorageError::NetWorkError { message: String::from("down") }.message(),
        "network error: down"
    );
    assert_eq!(TaskError::NotFound { task_id: 7 }.message(), "Task not found: 7");
    assert_eq!(
        TaskError::InvalidStatusTransition { from: String::from("a"), to: String::from("b") }
            .message(),
        "Invalid task status transition: a -> b"
    );
    assert_eq!(
        TaskError::InvalidParams { message: String::from("bad"), params: serde_json::Value::Null }
            .message(),
        "Invalid task parameters: bad"
    );
    assert_eq!(TaskError::ConcurrentUpdate.message(), "Concurrent modification detected");
}
