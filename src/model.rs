//! The rows of the five relations and the enumerated task fields.
use vstd::prelude::*;
use vstd::string::*;

verus! {

/// Timestamps are microseconds since the Unix epoch, kept within ten thousand
/// years of it so that every one of them is a representable calendar instant.
pub const TIMESTAMP_LIMIT: i64 = 253402300799999999;

pub open spec fn valid_timestamp(t: i64) -> bool {
    -TIMESTAMP_LIMIT <= t && t <= TIMESTAMP_LIMIT
}

pub open spec fn valid_opt_timestamp(t: Option<i64>) -> bool {
    match t {
        Some(v) => valid_timestamp(v),
        None => true,
    }
}

/// Progress of a task.
#[derive(Clone, Copy, Debug, PartialEq, Eq, Structural)]
pub enum TaskStatus {
    Pending,
    InProgress,
    Completed,
}

/// Urgency of a task.
#[derive(Clone, Copy, Debug, PartialEq, Eq, Structural)]
pub enum TaskPriority {
    Low,
    Medium,
    High,
}

pub open spec fn status_text(s: TaskStatus) -> Seq<char> {
    match s {
        TaskStatus::Pending => "pending"@,
        TaskStatus::InProgress => "in_progress"@,
        TaskStatus::Completed => "completed"@,
    }
}

pub open spec fn priority_text(p: TaskPriority) -> Seq<char> {
    match p {
        TaskPriority::Low => "low"@,
        TaskPriority::Medium => "medium"@,
        TaskPriority::High => "high"@,
    }
}

/// The status that a text names, if any.
pub open spec fn status_named(t: Seq<char>) -> Option<TaskStatus> {
    if t == "pending"@ {
        Some(TaskStatus::Pending)
    } else if t == "in_progress"@ {
        Some(TaskStatus::InProgress)
    } else if t == "completed"@ {
        Some(TaskStatus::Completed)
    } else {
        None
    }
}

/// The priority that a text names, if any.
pub open spec fn priority_named(t: Seq<char>) -> Option<TaskPriority> {
    if t == "low"@ {
        Some(TaskPriority::Low)
    } else if t == "medium"@ {
        Some(TaskPriority::Medium)
    } else if t == "high"@ {
        Some(TaskPriority::High)
    } else {
        None
    }
}

/// The status of a new task: the one named, or pending when none is given.
pub open spec fn initial_status(t: Seq<char>) -> Option<TaskStatus> {
    if t.len() == 0 {
        Some(TaskStatus::Pending)
    } else {
        status_named(t)
    }
}

/// The priority of a new task: the one named, or high when none is given.
pub open spec fn initial_priority(t: Seq<char>) -> Option<TaskPriority> {
    if t.len() == 0 {
        Some(TaskPriority::High)
    } else {
        priority_named(t)
    }
}

impl TaskStatus {
    pub fn as_str(&self) -> (r: &'static str)
        ensures
            r@ == status_text(*self),
    {
        match self {
            TaskStatus::Pending => "pending",
            TaskStatus::InProgress => "in_progress",
            TaskStatus::Completed => "completed",
        }
    }

    /// Reads the status of a new task; an empty text asks for the default.
    pub fn initial(t: &String) -> (r: Option<TaskStatus>)
        ensures
            r == initial_status(t@),
    {
        if t.unicode_len() == 0 {
            Some(TaskStatus::Pending)
        } else {
            TaskStatus::parse(t)
        }
    }

    pub fn parse(t: &String) -> (r: Option<TaskStatus>)
        ensures
            r == status_named(t@),
    {
        if *t == String::from_str("pending") {
            Some(TaskStatus::Pending)
        } else if *t == String::from_str("in_progress") {
            Some(TaskStatus::InProgress)
        } else if *t == String::from_str("completed") {
            Some(TaskStatus::Completed)
        } else {
            None
        }
    }
}

impl TaskPriority {
    pub fn as_str(&self) -> (r: &'static str)
        ensures
            r@ == priority_text(*self),
    {
        match self {
            TaskPriority::Low => "low",
            TaskPriority::Medium => "medium",
            TaskPriority::High => "high",
        }
    }

    /// Reads the priority of a new task; an empty text asks for the default.
    pub fn initial(t: &String) -> (r: Option<TaskPriority>)
        ensures
            r == initial_priority(t@),
    {
        if t.unicode_len() == 0 {
            Some(TaskPriority::High)
        } else {
            TaskPriority::parse(t)
        }
    }

    pub fn parse(t: &String) -> (r: Option<TaskPriority>)
        ensures
            r == priority_named(t@),
    {
        if *t == String::from_str("low") {
            Some(TaskPriority::Low)
        } else if *t == String::from_str("medium") {
            Some(TaskPriority::Medium)
        } else if *t == String::from_str("high") {
            Some(TaskPriority::High)
        } else {
            None
        }
    }
}

#[derive(Debug)]
pub struct User {
    pub id: i32,
    pub name: String,
    pub username: String,
    pub email: String,
    pub password: String,
    pub date_created: i64,
    pub date_updated: Option<i64>,
}

#[derive(Debug)]
pub struct UserProfile {
    pub id: i32,
    pub user_id: i32,
    pub address: Option<String>,
    pub mobile_number: Option<String>,
}

#[derive(Debug)]
pub struct Task {
    pub id: i32,
    pub title: String,
    pub description: String,
    pub status: TaskStatus,
    pub priority: TaskPriority,
    pub uuid: String,
    pub due_date: Option<i64>,
    pub date_created: i64,
    pub date_updated: Option<i64>,
    pub user_id: i32,
}

#[derive(Debug)]
pub struct Label {
    pub id: i32,
    pub title: String,
    pub color: String,
    pub user_id: i32,
}

/// A link between a task and a label of the same owner.
#[derive(Debug)]
pub struct TaskLabel {
    pub id: i32,
    pub task_id: i32,
    pub label_id: i32,
}

fn copy_opt_string(s: &Option<String>) -> (r: Option<String>)
    ensures
        r == *s,
{
    match s {
        Some(v) => Some(v.clone()),
        None => None,
    }
}

impl Clone for User {
    fn clone(&self) -> (r: Self)
        ensures
            r == *self,
    {
        User {
            id: self.id,
            name: self.name.clone(),
            username: self.username.clone(),
            email: self.email.clone(),
            password: self.password.clone(),
            date_created: self.date_created,
            date_updated: self.date_updated,
        }
    }
}

impl Clone for UserProfile {
    fn clone(&self) -> (r: Self)
        ensures
            r == *self,
    {
        UserProfile {
            id: self.id,
            user_id: self.user_id,
            address: copy_opt_string(&self.address),
            mobile_number: copy_opt_string(&self.mobile_number),
        }
    }
}

impl Clone for Task {
    fn clone(&self) -> (r: Self)
        ensures
            r == *self,
    {
        Task {
            id: self.id,
            title: self.title.clone(),
            description: self.description.clone(),
            status: self.status,
            priority: self.priority,
            uuid: self.uuid.clone(),
            due_date: self.due_date,
            date_created: self.date_created,
            date_updated: self.date_updated,
            user_id: self.user_id,
        }
    }
}

impl Clone for Label {
    fn clone(&self) -> (r: Self)
        ensures
            r == *self,
    {
        Label {
            id: self.id,
            title: self.title.clone(),
            color: self.color.clone(),
            user_id: self.user_id,
        }
    }
}

impl Clone for TaskLabel {
    fn clone(&self) -> (r: Self)
        ensures
            r == *self,
    {
        TaskLabel { id: self.id, task_id: self.task_id, label_id: self.label_id }
    }
}

} // verus!
