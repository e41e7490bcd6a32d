use task_api::forms::{CreateLabelRequest, CreateTaskRequest, CreateUserRequest};
use task_api::serializer::{FullTaskSerializer, TaskSerializer, UserWithProfileSerializer};
use task_api::store::Store;

#[test]
fn task_serializer_writes_timestamps() {
    let mut store = Store::new();
    let (u, p) = store
        .register_user(
            CreateUserRequest {
                name: "Ann".to_string(),
                username: "ann".to_string(),
                email: "ann@x.org".to_string(),
                password: "h".to_string(),
                address: "here".to_string(),
                mobile_number: "1".to_string(),
            },
            1662921288000000,
        )
        .unwrap();
    let s = UserWithProfileSerializer::from_parts(u.clone(), Some(p));
    assert_eq!(s.date_created, "2022-09-11 18:34:48 +00:00");
    assert_eq!(s.date_updated, None);
    assert_eq!(s.profile.unwrap().address, Some("here".to_string()));
    store.create_label(u.id, CreateLabelRequest { title: "work".to_string() }).unwrap();
    let t = store
        .insert_task(
            u.id,
            CreateTaskRequest {
                title: "Write".to_string(),
                description: "d".to_string(),
                status: "in_progress".to_string(),
                priority: "medium".to_string(),
                due_date: Some(-2208936075000000),
                labels: vec!["work".to_string()],
            },
            "id-1".to_string(),
            1662921288000000,
        )
        .unwrap();
    let ts = TaskSerializer::from_task(t.clone());
    assert_eq!(ts.status, "in_progress");
    assert_eq!(ts.priority, "medium");
    assert_eq!(ts.due_date, Some("1900-01-01 14:38:45 +00:00".to_string()));
    assert_eq!(ts.date_created, "2022-09-11 18:34:48 +00:00");
    let (task, labels) = store.get_task_full(u.id, &t.uuid).unwrap();
    let full = FullTaskSerializer::from_parts(task, labels);
    assert_eq!(full.task.uuid, "id-1");
    assert_eq!(full.labels.len(), 1);
    assert_eq!(full.labels[0].title, "work");
}
