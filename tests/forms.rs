use task_api::error::AppError;
use task_api::forms::{
    CreateLabelRequest, CreateTaskRequest, UpdateLabelRequest, UpdateTaskPriorityRequest,
    UpdateTaskRequest, UpdateTaskStatusRequest,
};
use task_api::model::{TaskPriority, TaskStatus};

fn fields(r: Result<(), AppError>) -> Vec<String> {
    match r {
        Err(AppError::Validation(es)) => es.into_iter().map(|e| e.field).collect(),
        Err(_) => panic!("not a validation error"),
        Ok(()) => Vec::new(),
    }
}

#[test]
fn label_title_needs_three_characters() {
    assert!(CreateLabelRequest { title: "ab".to_string() }.validate().is_err());
    assert!(CreateLabelRequest { title: "abc".to_string() }.validate().is_ok());
    assert!(UpdateLabelRequest { title: "éèà".to_string() }.validate().is_ok());
    assert_eq!(fields(UpdateLabelRequest { title: "".to_string() }.validate()), vec!["title"]);
}

#[test]
fn create_task_lists_every_failing_field() {
    let req = CreateTaskRequest {
        title: "ab".to_string(),
        description: String::new(),
        status: "done".to_string(),
        priority: "urgent".to_string(),
        due_date: Some(i64::MAX),
        labels: vec![],
    };
    assert_eq!(fields(req.validate()), vec!["title", "status", "priority", "due_date"]);
    let ok = CreateTaskRequest {
        title: "Write".to_string(),
        description: String::new(),
        status: "pending".to_string(),
        priority: "low".to_string(),
        due_date: Some(0),
        labels: vec![],
    };
    assert!(ok.validate().is_ok());
}

#[test]
fn update_requests_check_names() {
    let req = UpdateTaskRequest {
        title: "Title".to_string(),
        description: None,
        status: "in_progress".to_string(),
        labels: vec![],
    };
    assert!(req.validate().is_ok());
    assert_eq!(fields(UpdateTaskStatusRequest { status: "nope".to_string() }.validate()), vec!["status"]);
    assert!(UpdateTaskStatusRequest { status: "completed".to_string() }.validate().is_ok());
    assert_eq!(fields(UpdateTaskPriorityRequest { priority: "x".to_string() }.validate()), vec!["priority"]);
    assert!(UpdateTaskPriorityRequest { priority: "high".to_string() }.validate().is_ok());
}

#[test]
fn status_and_priority_texts() {
    assert_eq!(TaskStatus::parse(&"in_progress".to_string()), Some(TaskStatus::InProgress));
    assert_eq!(TaskStatus::parse(&"Pending".to_string()), None);
    assert_eq!(TaskStatus::Completed.as_str(), "completed");
    assert_eq!(TaskPriority::parse(&"medium".to_string()), Some(TaskPriority::Medium));
    assert_eq!(TaskPriority::High.as_str(), "high");
}

#[test]
fn error_kinds_map_to_statuses() {
    assert_eq!(AppError::NotFound("Task not found.".to_string()).status_code(), 404);
    assert_eq!(AppError::Validation(vec![]).status_code(), 400);
    assert_eq!(AppError::Conflict("x".to_string()).status_code(), 400);
    assert_eq!(AppError::Unauthorized("x".to_string()).status_code(), 401);
    assert_eq!(AppError::Internal("disk on fire".to_string()).status_code(), 500);
}

#[test]
fn error_messages_hide_internal_detail() {
    assert_eq!(AppError::Internal("disk on fire".to_string()).message(), "Internal server error");
    assert_eq!(AppError::NotFound("Task not found.".to_string()).message(), "Task not found.");
    let req = CreateTaskRequest {
        title: "ab".to_string(),
        description: String::new(),
        status: "done".to_string(),
        priority: "low".to_string(),
        due_date: None,
        labels: vec![],
    };
    let e = req.validate().unwrap_err();
    assert_eq!(
        e.message(),
        "title: Must have at least 3 characters; status: Must be one of pending, in_progress, completed"
    );
}
