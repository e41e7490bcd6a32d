use task_api::error::AppError;
use task_api::forms::{
    CreateLabelRequest, CreateTaskRequest, CreateUserRequest, UpdateLabelRequest,
    UpdateTaskPriorityRequest, UpdateTaskRequest, UpdateTaskStatusRequest, UpdateUserRequest,
};
use task_api::model::{TaskPriority, TaskStatus};
use task_api::query::{TaskFilter, UserFilter};
use task_api::store::Store;

const T0: i64 = 1_700_000_000_000_000;

fn user_req(name: &str, username: &str, email: &str) -> CreateUserRequest {
    CreateUserRequest {
        name: name.to_string(),
        username: username.to_string(),
        email: email.to_string(),
        password: "secret-hash".to_string(),
        address: "1 Main St".to_string(),
        mobile_number: "555-0100".to_string(),
    }
}

fn task_req(title: &str, labels: &[&str]) -> CreateTaskRequest {
    CreateTaskRequest {
        title: title.to_string(),
        description: "details".to_string(),
        status: "pending".to_string(),
        priority: "low".to_string(),
        due_date: None,
        labels: labels.iter().map(|s| s.to_string()).collect(),
    }
}

fn label(store: &mut Store, user: i32, title: &str) -> i32 {
    store.create_label(user, CreateLabelRequest { title: title.to_string() }).unwrap().id
}

fn titles(store: &Store, user: i32, uuid: &str) -> Vec<String> {
    let (_, labels) = store.get_task_full(user, &uuid.to_string()).unwrap();
    labels.into_iter().map(|l| l.title).collect()
}

#[test]
fn register_creates_user_and_profile() {
    let mut store = Store::new();
    let (u, p) = store.register_user(user_req("Ann", "ann", "ann@x.org"), T0).unwrap();
    assert_eq!(u.id, 1);
    assert_eq!(u.username, "ann");
    assert_eq!(u.date_created, T0);
    assert_eq!(u.date_updated, None);
    assert_eq!(p.user_id, u.id);
    assert_eq!(p.address, Some("1 Main St".to_string()));
    assert_eq!(p.mobile_number, Some("555-0100".to_string()));
    assert_eq!(store.user_count(), 1);
    assert_eq!(store.profile_count(), 1);
    let (got, prof) = store.get_user(u.id).unwrap();
    assert_eq!(got.email, "ann@x.org");
    assert_eq!(prof.unwrap().id, p.id);
}

#[test]
fn duplicate_username_rolls_back_registration() {
    let mut store = Store::new();
    store.register_user(user_req("Ann", "ann", "ann@x.org"), T0).unwrap();
    let r = store.register_user(user_req("Other", "ann", "other@x.org"), T0 + 1);
    assert!(matches!(r, Err(AppError::Conflict(_))));
    assert_eq!(store.user_count(), 1);
    assert_eq!(store.profile_count(), 1);
    let r = store.register_user(user_req("Other", "other", "ann@x.org"), T0 + 1);
    assert!(matches!(r, Err(AppError::Conflict(_))));
    assert_eq!(store.profile_count(), 1);
}

#[test]
fn create_task_links_only_existing_labels() {
    let mut store = Store::new();
    let (u, _) = store.register_user(user_req("Ann", "ann", "ann@x.org"), T0).unwrap();
    label(&mut store, u.id, "urgent");
    let t = store.create_task(u.id, task_req("Pay bills", &["urgent", "home"]), T0).unwrap();
    assert_eq!(t.uuid.len(), 36);
    assert_eq!(t.status, TaskStatus::Pending);
    assert_eq!(t.priority, TaskPriority::Low);
    assert_eq!(store.link_count(), 1);
    assert_eq!(titles(&store, u.id, &t.uuid), vec!["urgent"]);
}

#[test]
fn create_task_without_labels_succeeds() {
    let mut store = Store::new();
    let (u, _) = store.register_user(user_req("Ann", "ann", "ann@x.org"), T0).unwrap();
    let t = store.insert_task(u.id, task_req("Plain", &["none"]), "u-1".to_string(), T0).unwrap();
    assert_eq!(t.uuid, "u-1");
    assert_eq!(store.link_count(), 0);
    assert_eq!(store.task_count(), 1);
}

#[test]
fn create_task_ignores_other_users_labels() {
    let mut store = Store::new();
    let (a, _) = store.register_user(user_req("Ann", "ann", "ann@x.org"), T0).unwrap();
    let (b, _) = store.register_user(user_req("Bob", "bob", "bob@x.org"), T0).unwrap();
    label(&mut store, b.id, "urgent");
    let t = store.insert_task(a.id, task_req("Mine", &["urgent"]), "u-1".to_string(), T0).unwrap();
    assert_eq!(store.link_count(), 0);
    assert!(titles(&store, a.id, &t.uuid).is_empty());
}

#[test]
fn insert_task_errors() {
    let mut store = Store::new();
    let (u, _) = store.register_user(user_req("Ann", "ann", "ann@x.org"), T0).unwrap();
    let r = store.insert_task(u.id, task_req("ab", &[]), "u-1".to_string(), T0);
    assert!(matches!(r, Err(AppError::Validation(_))));
    let r = store.insert_task(99, task_req("Title", &[]), "u-1".to_string(), T0);
    assert!(matches!(r, Err(AppError::NotFound(_))));
    store.insert_task(u.id, task_req("Title", &[]), "u-1".to_string(), T0).unwrap();
    let r = store.insert_task(u.id, task_req("Other", &[]), "u-1".to_string(), T0);
    assert!(matches!(r, Err(AppError::Conflict(_))));
    assert_eq!(store.task_count(), 1);
}

#[test]
fn update_task_adds_labels_and_keeps_old_ones() {
    let mut store = Store::new();
    let (u, _) = store.register_user(user_req("Ann", "ann", "ann@x.org"), T0).unwrap();
    label(&mut store, u.id, "urgent");
    label(&mut store, u.id, "new");
    let t = store.insert_task(u.id, task_req("Pay bills", &["urgent"]), "u-1".to_string(), T0).unwrap();
    let req = UpdateTaskRequest {
        title: "Pay all bills".to_string(),
        description: None,
        status: "in_progress".to_string(),
        labels: vec!["new".to_string()],
    };
    let t2 = store.update_task(u.id, &t.uuid, req, T0 + 5).unwrap();
    assert_eq!(t2.title, "Pay all bills");
    assert_eq!(t2.description, "details");
    assert_eq!(t2.status, TaskStatus::InProgress);
    assert_eq!(t2.date_updated, Some(T0 + 5));
    assert_eq!(t2.uuid, t.uuid);
    assert_eq!(titles(&store, u.id, &t.uuid), vec!["urgent", "new"]);
    assert_eq!(store.link_count(), 2);
    let again = UpdateTaskRequest {
        title: "Pay all bills".to_string(),
        description: Some("now".to_string()),
        status: "completed".to_string(),
        labels: vec!["new".to_string(), "urgent".to_string()],
    };
    let t3 = store.update_task(u.id, &t.uuid, again, T0 + 6).unwrap();
    assert_eq!(t3.description, "now");
    assert_eq!(store.link_count(), 2);
}

#[test]
fn task_lookups_are_owner_scoped() {
    let mut store = Store::new();
    let (a, _) = store.register_user(user_req("Ann", "ann", "ann@x.org"), T0).unwrap();
    let (b, _) = store.register_user(user_req("Bob", "bob", "bob@x.org"), T0).unwrap();
    let t = store.insert_task(a.id, task_req("Mine", &[]), "u-1".to_string(), T0).unwrap();
    assert!(store.get_task(a.id, &t.uuid).is_ok());
    assert!(matches!(store.get_task(b.id, &t.uuid), Err(AppError::NotFound(_))));
    assert!(matches!(store.delete_task(b.id, &t.uuid), Err(AppError::NotFound(_))));
    assert_eq!(store.task_count(), 1);
}

#[test]
fn status_and_priority_updates() {
    let mut store = Store::new();
    let (u, _) = store.register_user(user_req("Ann", "ann", "ann@x.org"), T0).unwrap();
    let t = store.insert_task(u.id, task_req("Title", &[]), "u-1".to_string(), T0).unwrap();
    let s = store.update_task_status(u.id, &t.uuid, UpdateTaskStatusRequest { status: "completed".to_string() }, T0 + 1).unwrap();
    assert_eq!(s.status, TaskStatus::Completed);
    assert_eq!(s.date_updated, Some(T0 + 1));
    let p = store.update_task_priority(u.id, &t.uuid, UpdateTaskPriorityRequest { priority: "high".to_string() }, T0 + 2).unwrap();
    assert_eq!(p.priority, TaskPriority::High);
    assert_eq!(p.status, TaskStatus::Completed);
    let bad = store.update_task_status(u.id, &t.uuid, UpdateTaskStatusRequest { status: "done".to_string() }, T0 + 3);
    assert!(matches!(bad, Err(AppError::Validation(_))));
    let missing = store.update_task_priority(u.id, &"nope".to_string(), UpdateTaskPriorityRequest { priority: "low".to_string() }, T0 + 3);
    assert!(matches!(missing, Err(AppError::NotFound(_))));
}

#[test]
fn delete_task_removes_its_links() {
    let mut store = Store::new();
    let (u, _) = store.register_user(user_req("Ann", "ann", "ann@x.org"), T0).unwrap();
    label(&mut store, u.id, "urgent");
    let t = store.insert_task(u.id, task_req("Title", &["urgent"]), "u-1".to_string(), T0).unwrap();
    assert_eq!(store.link_count(), 1);
    store.delete_task(u.id, &t.uuid).unwrap();
    assert_eq!(store.task_count(), 0);
    assert_eq!(store.link_count(), 0);
    assert_eq!(store.label_count(), 1);
}

#[test]
fn delete_user_cascades() {
    let mut store = Store::new();
    let (a, _) = store.register_user(user_req("Ann", "ann", "ann@x.org"), T0).unwrap();
    let (b, _) = store.register_user(user_req("Bob", "bob", "bob@x.org"), T0).unwrap();
    label(&mut store, a.id, "urgent");
    label(&mut store, b.id, "urgent");
    store.insert_task(a.id, task_req("A task", &["urgent"]), "u-a".to_string(), T0).unwrap();
    store.insert_task(b.id, task_req("B task", &["urgent"]), "u-b".to_string(), T0).unwrap();
    assert_eq!(store.link_count(), 2);
    store.delete_user(a.id);
    assert_eq!(store.user_count(), 1);
    assert_eq!(store.profile_count(), 1);
    assert_eq!(store.task_count(), 1);
    assert_eq!(store.label_count(), 1);
    assert_eq!(store.link_count(), 1);
    assert!(matches!(store.get_user(a.id), Err(AppError::NotFound(_))));
    assert!(matches!(store.user_tasks(a.id, 1, 10, None), Err(AppError::NotFound(_))));
    assert!(store.user_labels(a.id).is_empty());
    assert_eq!(titles(&store, b.id, "u-b"), vec!["urgent"]);
    store.delete_user(a.id);
    assert_eq!(store.user_count(), 1);
}

#[test]
fn label_titles_are_unique_per_user() {
    let mut store = Store::new();
    let (a, _) = store.register_user(user_req("Ann", "ann", "ann@x.org"), T0).unwrap();
    let (b, _) = store.register_user(user_req("Bob", "bob", "bob@x.org"), T0).unwrap();
    assert!(store.create_label(a.id, CreateLabelRequest { title: "work".to_string() }).is_ok());
    assert!(store.create_label(b.id, CreateLabelRequest { title: "work".to_string() }).is_ok());
    let again = store.create_label(a.id, CreateLabelRequest { title: "work".to_string() });
    assert!(matches!(again, Err(AppError::Conflict(_))));
    assert_eq!(store.label_count(), 2);
}

#[test]
fn label_creation_details() {
    let mut store = Store::new();
    let (a, _) = store.register_user(user_req("Ann", "ann", "ann@x.org"), T0).unwrap();
    let l = store.create_label(a.id, CreateLabelRequest { title: "work".to_string() }).unwrap();
    assert_eq!(l.color, "#FFFFFF");
    assert_eq!(l.user_id, a.id);
    let short = store.create_label(a.id, CreateLabelRequest { title: "w".to_string() });
    assert!(matches!(short, Err(AppError::Validation(_))));
    let nobody = store.create_label(42, CreateLabelRequest { title: "work".to_string() });
    assert!(matches!(nobody, Err(AppError::NotFound(_))));
}

#[test]
fn rename_label_rules() {
    let mut store = Store::new();
    let (a, _) = store.register_user(user_req("Ann", "ann", "ann@x.org"), T0).unwrap();
    let (b, _) = store.register_user(user_req("Bob", "bob", "bob@x.org"), T0).unwrap();
    let work = label(&mut store, a.id, "work");
    label(&mut store, a.id, "home");
    let same = store.update_label(a.id, work, UpdateLabelRequest { title: "work".to_string() });
    assert!(same.is_ok());
    let clash = store.update_label(a.id, work, UpdateLabelRequest { title: "home".to_string() });
    assert!(matches!(clash, Err(AppError::Conflict(_))));
    let renamed = store.update_label(a.id, work, UpdateLabelRequest { title: "office".to_string() }).unwrap();
    assert_eq!(renamed.title, "office");
    assert_eq!(renamed.color, "#FFFFFF");
    let foreign = store.update_label(b.id, work, UpdateLabelRequest { title: "mine".to_string() });
    assert!(matches!(foreign, Err(AppError::NotFound(_))));
    assert_eq!(store.get_label(a.id, work).unwrap().title, "office");
    assert!(matches!(store.get_label(b.id, work), Err(AppError::NotFound(_))));
}

#[test]
fn delete_label_removes_links() {
    let mut store = Store::new();
    let (a, _) = store.register_user(user_req("Ann", "ann", "ann@x.org"), T0).unwrap();
    let urgent = label(&mut store, a.id, "urgent");
    label(&mut store, a.id, "home");
    store.insert_task(a.id, task_req("Title", &["urgent", "home"]), "u-1".to_string(), T0).unwrap();
    assert_eq!(store.link_count(), 2);
    store.delete_label(a.id, urgent).unwrap();
    assert_eq!(titles(&store, a.id, "u-1"), vec!["home"]);
    assert!(matches!(store.delete_label(a.id, urgent), Err(AppError::NotFound(_))));
}

#[test]
fn task_listing_filters_and_orders_newest_first() {
    let mut store = Store::new();
    let (a, _) = store.register_user(user_req("Ann", "ann", "ann@x.org"), T0).unwrap();
    let (b, _) = store.register_user(user_req("Bob", "bob", "bob@x.org"), T0).unwrap();
    for i in 0..12i64 {
        store.insert_task(a.id, task_req(&format!("Task {}", i), &[]), format!("a-{}", i), T0 + i).unwrap();
    }
    store.insert_task(b.id, task_req("Other", &[]), "b-0".to_string(), T0).unwrap();
    store.update_task_status(a.id, &"a-3".to_string(), UpdateTaskStatusRequest { status: "completed".to_string() }, T0 + 20).unwrap();
    let all = TaskFilter { status: None };
    let p1 = store.list_tasks(a.id, &all, 1, Some("/tasks".to_string()));
    assert_eq!(p1.meta.count, 12);
    assert_eq!(p1.meta.total_page, 2);
    assert_eq!(p1.data.len(), 10);
    assert_eq!(p1.data[0].uuid, "a-11");
    assert_eq!(p1.data[9].uuid, "a-2");
    let p2 = store.list_tasks(a.id, &all, 2, None);
    assert_eq!(p2.data.iter().map(|t| t.uuid.clone()).collect::<Vec<_>>(), vec!["a-1", "a-0"]);
    assert!(store.list_tasks(a.id, &all, 3, None).data.is_empty());
    assert_eq!(store.list_tasks(a.id, &all, 0, None).data[0].uuid, "a-11");
    let done = TaskFilter { status: Some("completed".to_string()) };
    let pd = store.list_tasks(a.id, &done, 1, None);
    assert_eq!(pd.meta.count, 1);
    assert_eq!(pd.data[0].uuid, "a-3");
}

#[test]
fn same_time_tasks_order_by_identifier() {
    let mut store = Store::new();
    let (a, _) = store.register_user(user_req("Ann", "ann", "ann@x.org"), T0).unwrap();
    store.insert_task(a.id, task_req("First", &[]), "x-1".to_string(), T0).unwrap();
    store.insert_task(a.id, task_req("Second", &[]), "x-2".to_string(), T0).unwrap();
    let pg = store.list_tasks(a.id, &TaskFilter { status: None }, 1, None);
    assert_eq!(pg.data[0].uuid, "x-2");
    assert_eq!(pg.data[1].uuid, "x-1");
}

#[test]
fn task_filter_reads_status_parameter() {
    let params = vec![("page".to_string(), "2".to_string()), ("status".to_string(), "pending".to_string())];
    let f = TaskFilter::from_params(&params);
    assert_eq!(f.status, Some("pending".to_string()));
    assert_eq!(TaskFilter::from_params(&vec![]).status, None);
}

#[test]
fn user_listing_filters_by_substring() {
    let mut store = Store::new();
    store.register_user(user_req("Ann Lee", "ann", "ann@x.org"), T0).unwrap();
    store.register_user(user_req("Bob Lee", "bob", "bob@y.org"), T0 + 1).unwrap();
    store.register_user(user_req("Cy", "cy", "cy@x.org"), T0 + 2).unwrap();
    let params = vec![("name".to_string(), "Lee".to_string())];
    let f = UserFilter::from_params(&params);
    let pg = store.list_users(&f, 1, None);
    assert_eq!(pg.meta.count, 2);
    assert_eq!(pg.data[0].0.username, "bob");
    assert_eq!(pg.data[1].0.username, "ann");
    assert!(pg.data[0].1.is_some());
    let both = UserFilter { name: Some("Lee".to_string()), username: None, email: Some("x.org".to_string()) };
    let pg = store.list_users(&both, 1, None);
    assert_eq!(pg.meta.count, 1);
    assert_eq!(pg.data[0].0.username, "ann");
    let none = UserFilter { name: None, username: None, email: None };
    let pg = store.list_users(&none, 1, None);
    assert_eq!(pg.data.iter().map(|(u, _)| u.username.clone()).collect::<Vec<_>>(), vec!["cy", "bob", "ann"]);
}

#[test]
fn user_tasks_page_with_custom_size() {
    let mut store = Store::new();
    let (a, _) = store.register_user(user_req("Ann", "ann", "ann@x.org"), T0).unwrap();
    for i in 0..5i64 {
        store.insert_task(a.id, task_req("Task", &[]), format!("t-{}", i), T0 + i).unwrap();
    }
    let pg = store.user_tasks(a.id, 2, 2, None).unwrap();
    assert_eq!(pg.data.iter().map(|t| t.uuid.clone()).collect::<Vec<_>>(), vec!["t-2", "t-1"]);
    assert_eq!(pg.meta.total_page, 3);
    assert_eq!(pg.meta.per_page, 2);
}

#[test]
fn update_user_keeps_identities_unique() {
    let mut store = Store::new();
    let (a, _) = store.register_user(user_req("Ann", "ann", "ann@x.org"), T0).unwrap();
    store.register_user(user_req("Bob", "bob", "bob@x.org"), T0).unwrap();
    let clash = store.update_user(a.id, UpdateUserRequest {
        name: "Ann".to_string(),
        username: "bob".to_string(),
        email: "ann@x.org".to_string(),
        password: None,
    }, T0 + 1);
    assert!(matches!(clash, Err(AppError::Conflict(_))));
    let u = store.update_user(a.id, UpdateUserRequest {
        name: "Ann B".to_string(),
        username: "ann".to_string(),
        email: "ann@z.org".to_string(),
        password: None,
    }, T0 + 1).unwrap();
    assert_eq!(u.name, "Ann B");
    assert_eq!(u.password, "secret-hash");
    assert_eq!(u.date_updated, Some(T0 + 1));
    assert_eq!(store.user_by_username(&"ann".to_string()).unwrap().email, "ann@z.org");
    assert!(matches!(store.user_by_username(&"zed".to_string()), Err(AppError::NotFound(_))));
    let missing = store.update_user(77, UpdateUserRequest {
        name: "X".to_string(),
        username: "x".to_string(),
        email: "x@x".to_string(),
        password: Some("p".to_string()),
    }, T0);
    assert!(matches!(missing, Err(AppError::NotFound(_))));
}

#[test]
fn new_task_defaults_status_and_priority() {
    let mut store = Store::new();
    let (u, _) = store.register_user(user_req("Ann", "ann", "ann@x.org"), T0).unwrap();
    let mut req = task_req("Defaults", &[]);
    req.status = String::new();
    req.priority = String::new();
    let t = store.insert_task(u.id, req, "d-1".to_string(), T0).unwrap();
    assert_eq!(t.status, TaskStatus::Pending);
    assert_eq!(t.priority, TaskPriority::High);
}

#[test]
fn update_on_missing_task_is_not_found_whatever_the_payload() {
    let mut store = Store::new();
    let (u, _) = store.register_user(user_req("Ann", "ann", "ann@x.org"), T0).unwrap();
    let req = UpdateTaskRequest {
        title: "x".to_string(),
        description: None,
        status: "bogus".to_string(),
        labels: vec![],
    };
    assert!(matches!(store.update_task(u.id, &"missing".to_string(), req, T0), Err(AppError::NotFound(_))));
    let s = store.update_task_status(u.id, &"missing".to_string(), UpdateTaskStatusRequest { status: "x".to_string() }, T0);
    assert!(matches!(s, Err(AppError::NotFound(_))));
    let p = store.update_task_priority(u.id, &"missing".to_string(), UpdateTaskPriorityRequest { priority: "x".to_string() }, T0);
    assert!(matches!(p, Err(AppError::NotFound(_))));
}

#[test]
fn user_tasks_are_newest_first() {
    let mut store = Store::new();
    let (a, _) = store.register_user(user_req("Ann", "ann", "ann@x.org"), T0).unwrap();
    store.insert_task(a.id, task_req("Old", &[]), "old".to_string(), T0).unwrap();
    store.insert_task(a.id, task_req("New", &[]), "new".to_string(), T0 + 10).unwrap();
    let pg = store.user_tasks(a.id, 1, 10, None).unwrap();
    assert_eq!(pg.data.iter().map(|t| t.uuid.clone()).collect::<Vec<_>>(), vec!["new", "old"]);
}
