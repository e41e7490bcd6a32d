//! Request payloads and their field constraints.
use vstd::prelude::*;
use vstd::string::*;
use crate::error::{AppError, FieldError};
use crate::model::{initial_priority, initial_status, priority_named, status_named, valid_opt_timestamp, TaskPriority, TaskStatus, TIMESTAMP_LIMIT};

verus! {

/// Shortest title, status or priority text that a payload may carry.
pub const MIN_TEXT_CHARS: usize = 3;

pub open spec fn long_enough(t: Seq<char>) -> bool {
    t.len() >= MIN_TEXT_CHARS
}

/// The fields named by a list of field errors, in order.
pub open spec fn fields_of(es: Seq<FieldError>) -> Seq<Seq<char>> {
    es.map_values(|e: FieldError| e.field@)
}

/// `field` when `ok` fails, else nothing.
pub open spec fn fault(ok: bool, field: Seq<char>) -> Seq<Seq<char>> {
    if ok {
        Seq::empty()
    } else {
        seq![field]
    }
}

#[derive(Debug)]
pub struct CreateLabelRequest {
    pub title: String,
}

#[derive(Debug)]
pub struct UpdateLabelRequest {
    pub title: String,
}

#[derive(Debug)]
pub struct CreateTaskRequest {
    pub title: String,
    pub description: String,
    pub status: String,
    pub priority: String,
    pub due_date: Option<i64>,
    pub labels: Vec<String>,
}

#[derive(Debug)]
pub struct UpdateTaskRequest {
    pub title: String,
    pub description: Option<String>,
    pub status: String,
    pub labels: Vec<String>,
}

#[derive(Debug)]
pub struct UpdateTaskStatusRequest {
    pub status: String,
}

#[derive(Debug)]
pub struct UpdateTaskPriorityRequest {
    pub priority: String,
}

#[derive(Debug)]
pub struct CreateUserRequest {
    pub name: String,
    pub username: String,
    pub email: String,
    pub password: String,
    pub address: String,
    pub mobile_number: String,
}

#[derive(Debug)]
pub struct UpdateUserRequest {
    pub name: String,
    pub username: String,
    pub email: String,
    pub password: Option<String>,
}

pub open spec fn title_faults(title: Seq<char>) -> Seq<Seq<char>> {
    fault(long_enough(title), "title"@)
}

pub open spec fn create_task_faults(r: CreateTaskRequest) -> Seq<Seq<char>> {
    fault(long_enough(r.title@), "title"@) + fault(initial_status(r.status@) is Some, "status"@)
        + fault(initial_priority(r.priority@) is Some, "priority"@) + fault(
        valid_opt_timestamp(r.due_date),
        "due_date"@,
    )
}

pub open spec fn update_task_faults(r: UpdateTaskRequest) -> Seq<Seq<char>> {
    fault(long_enough(r.title@), "title"@) + fault(status_named(r.status@) is Some, "status"@)
}

/// Outcome of a validation that found the faults `faults`.
pub open spec fn validated(r: Result<(), AppError>, faults: Seq<Seq<char>>) -> bool {
    &&& (r is Ok <==> faults.len() == 0)
    &&& (r matches Err(e) ==> e matches AppError::Validation(es) && fields_of(es@) == faults)
}

fn note_fault(errors: &mut Vec<FieldError>, ok: bool, field: &str, message: &str)
    ensures
        fields_of(final(errors)@) == fields_of(old(errors)@) + fault(ok, field@),
{
    if !ok {
        errors.push(FieldError { field: String::from_str(field), message: String::from_str(message) });
        proof {
            assert(fields_of(errors@) =~= fields_of(old(errors)@) + fault(ok, field@));
        }
    } else {
        assert(fields_of(errors@) =~= fields_of(old(errors)@) + fault(ok, field@));
    }
}

fn into_result(errors: Vec<FieldError>) -> (r: Result<(), AppError>)
    ensures
        validated(r, fields_of(errors@)),
{
    if errors.len() == 0 {
        Ok(())
    } else {
        Err(AppError::Validation(errors))
    }
}

fn status_known(t: &String) -> (r: bool)
    ensures
        r == (status_named(t@) is Some),
{
    TaskStatus::parse(t).is_some()
}

fn priority_known(t: &String) -> (r: bool)
    ensures
        r == (priority_named(t@) is Some),
{
    TaskPriority::parse(t).is_some()
}

fn opt_timestamp_ok(t: Option<i64>) -> (r: bool)
    ensures
        r == valid_opt_timestamp(t),
{
    match t {
        Some(v) => -TIMESTAMP_LIMIT <= v && v <= TIMESTAMP_LIMIT,
        None => true,
    }
}

const SHORT: &'static str = "Must have at least 3 characters";

impl CreateLabelRequest {
    pub fn validate(&self) -> (r: Result<(), AppError>)
        ensures
            validated(r, title_faults(self.title@)),
    {
        let mut errors: Vec<FieldError> = Vec::new();
        assert(fields_of(errors@) =~= Seq::empty());
        note_fault(&mut errors, self.title.unicode_len() >= MIN_TEXT_CHARS, "title", SHORT);
        assert(fields_of(errors@) =~= title_faults(self.title@));
        into_result(errors)
    }
}

impl UpdateLabelRequest {
    pub fn validate(&self) -> (r: Result<(), AppError>)
        ensures
            validated(r, title_faults(self.title@)),
    {
        let mut errors: Vec<FieldError> = Vec::new();
        assert(fields_of(errors@) =~= Seq::empty());
        note_fault(&mut errors, self.title.unicode_len() >= MIN_TEXT_CHARS, "title", SHORT);
        assert(fields_of(errors@) =~= title_faults(self.title@));
        into_result(errors)
    }
}

impl CreateTaskRequest {
    pub fn validate(&self) -> (r: Result<(), AppError>)
        ensures
            validated(r, create_task_faults(*self)),
    {
        let mut errors: Vec<FieldError> = Vec::new();
        assert(fields_of(errors@) =~= Seq::empty());
        note_fault(&mut errors, self.title.unicode_len() >= MIN_TEXT_CHARS, "title", SHORT);
        note_fault(&mut errors, TaskStatus::initial(&self.status).is_some(), "status",
            "Must be one of pending, in_progress, completed");
        note_fault(&mut errors, TaskPriority::initial(&self.priority).is_some(), "priority",
            "Must be one of low, medium, high");
        note_fault(&mut errors, opt_timestamp_ok(self.due_date), "due_date", "Date out of range");
        assert(fields_of(errors@) =~= create_task_faults(*self));
        into_result(errors)
    }
}

impl UpdateTaskRequest {
    pub fn validate(&self) -> (r: Result<(), AppError>)
        ensures
            validated(r, update_task_faults(*self)),
    {
        let mut errors: Vec<FieldError> = Vec::new();
        assert(fields_of(errors@) =~= Seq::empty());
        note_fault(&mut errors, self.title.unicode_len() >= MIN_TEXT_CHARS, "title", SHORT);
        note_fault(&mut errors, status_known(&self.status), "status",
            "Must be one of pending, in_progress, completed");
        assert(fields_of(errors@) =~= update_task_faults(*self));
        into_result(errors)
    }
}

impl UpdateTaskStatusRequest {
    pub fn validate(&self) -> (r: Result<(), AppError>)
        ensures
            validated(r, fault(status_named(self.status@) is Some, "status"@)),
    {
        let mut errors: Vec<FieldError> = Vec::new();
        assert(fields_of(errors@) =~= Seq::empty());
        note_fault(&mut errors, status_known(&self.status), "status",
            "Must be one of pending, in_progress, completed");
        assert(fields_of(errors@) =~= fault(status_named(self.status@) is Some, "status"@));
        into_result(errors)
    }
}

impl UpdateTaskPriorityRequest {
    pub fn validate(&self) -> (r: Result<(), AppError>)
        ensures
            validated(r, fault(priority_named(self.priority@) is Some, "priority"@)),
    {
        let mut errors: Vec<FieldError> = Vec::new();
        assert(fields_of(errors@) =~= Seq::empty());
        note_fault(&mut errors, priority_known(&self.priority), "priority",
            "Must be one of low, medium, high");
        assert(fields_of(errors@) =~= fault(priority_named(self.priority@) is Some, "priority"@));
        into_result(errors)
    }
}

} // verus!
