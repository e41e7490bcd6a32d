//! The shapes in which rows leave the library, with timestamps as text.
use vstd::prelude::*;
use vstd::string::*;
use crate::model::{
    priority_text, status_text, valid_opt_timestamp, valid_timestamp, Label, Task, User,
    UserProfile,
};

verus! {

/// The text of the instant `micros` microseconds after the Unix epoch, as
/// chrono writes a `DateTime<FixedOffset>` at offset zero.
pub uninterp spec fn timestamp_text(micros: int) -> Seq<char>;

/// Relies on chrono's `DateTime::from_timestamp_micros`, which represents
/// every instant within about 262,000 years of the epoch, and on the text form
/// of `DateTime<FixedOffset>`, which depends on the instant alone.
#[verifier::external_body]
fn format_timestamp(micros: i64) -> (r: String)
    requires
        valid_timestamp(micros),
    ensures
        r@ == timestamp_text(micros as int),
{
    match chrono::DateTime::from_timestamp_micros(micros) {
        Some(d) => d.fixed_offset().to_string(),
        None => String::new(),
    }
}

pub open spec fn opt_timestamp_text(t: Option<i64>) -> Option<Seq<char>> {
    match t {
        Some(v) => Some(timestamp_text(v as int)),
        None => None,
    }
}

pub open spec fn opt_view(s: Option<String>) -> Option<Seq<char>> {
    match s {
        Some(v) => Some(v@),
        None => None,
    }
}

fn format_opt_timestamp(t: Option<i64>) -> (r: Option<String>)
    requires
        valid_opt_timestamp(t),
    ensures
        opt_view(r) == opt_timestamp_text(t),
{
    match t {
        Some(v) => Some(format_timestamp(v)),
        None => None,
    }
}

#[derive(Debug)]
pub struct UserSerializer {
    pub id: i32,
    pub name: String,
    pub username: String,
    pub email: String,
    pub date_created: String,
    pub date_updated: Option<String>,
}

#[derive(Debug)]
pub struct UserProfileSerializer {
    pub id: i32,
    pub address: Option<String>,
    pub mobile_number: Option<String>,
}

#[derive(Debug)]
pub struct UserWithProfileSerializer {
    pub id: i32,
    pub name: String,
    pub username: String,
    pub email: String,
    pub date_created: String,
    pub date_updated: Option<String>,
    pub profile: Option<UserProfileSerializer>,
}

#[derive(Debug)]
pub struct TaskSerializer {
    pub id: i32,
    pub title: String,
    pub description: String,
    pub status: String,
    pub priority: String,
    pub uuid: String,
    pub due_date: Option<String>,
    pub date_created: String,
    pub date_updated: Option<String>,
}

#[derive(Debug)]
pub struct LabelSerializer {
    pub id: i32,
    pub title: String,
}

#[derive(Debug)]
pub struct FullTaskSerializer {
    pub task: TaskSerializer,
    pub labels: Vec<LabelSerializer>,
}

impl UserSerializer {
    pub fn from_user(u: User) -> (r: UserSerializer)
        requires
            valid_timestamp(u.date_created),
            valid_opt_timestamp(u.date_updated),
        ensures
            r.id == u.id,
            r.name == u.name,
            r.username == u.username,
            r.email == u.email,
            r.date_created@ == timestamp_text(u.date_created as int),
            opt_view(r.date_updated) == opt_timestamp_text(u.date_updated),
    {
        UserSerializer {
            id: u.id,
            name: u.name,
            username: u.username,
            email: u.email,
            date_created: format_timestamp(u.date_created),
            date_updated: format_opt_timestamp(u.date_updated),
        }
    }
}

impl UserProfileSerializer {
    pub fn from_profile(p: UserProfile) -> (r: UserProfileSerializer)
        ensures
            r.id == p.id,
            r.address == p.address,
            r.mobile_number == p.mobile_number,
    {
        UserProfileSerializer { id: p.id, address: p.address, mobile_number: p.mobile_number }
    }
}

impl UserWithProfileSerializer {
    pub fn from_parts(u: User, p: Option<UserProfile>) -> (r: UserWithProfileSerializer)
        requires
            valid_timestamp(u.date_created),
            valid_opt_timestamp(u.date_updated),
        ensures
            r.id == u.id,
            r.name == u.name,
            r.username == u.username,
            r.email == u.email,
            r.date_created@ == timestamp_text(u.date_created as int),
            opt_view(r.date_updated) == opt_timestamp_text(u.date_updated),
            r.profile is Some <==> p is Some,
            p matches Some(q) ==> r.profile matches Some(s) && s.id == q.id && s.address
                == q.address && s.mobile_number == q.mobile_number,
    {
        let profile = match p {
            Some(q) => Some(UserProfileSerializer::from_profile(q)),
            None => None,
        };
        UserWithProfileSerializer {
            id: u.id,
            name: u.name,
            username: u.username,
            email: u.email,
            date_created: format_timestamp(u.date_created),
            date_updated: format_opt_timestamp(u.date_updated),
            profile,
        }
    }
}

impl TaskSerializer {
    pub fn from_task(t: Task) -> (r: TaskSerializer)
        requires
            valid_timestamp(t.date_created),
            valid_opt_timestamp(t.date_updated),
            valid_opt_timestamp(t.due_date),
        ensures
            r.id == t.id,
            r.title == t.title,
            r.description == t.description,
            r.status@ == status_text(t.status),
            r.priority@ == priority_text(t.priority),
            r.uuid == t.uuid,
            opt_view(r.due_date) == opt_timestamp_text(t.due_date),
            r.date_created@ == timestamp_text(t.date_created as int),
            opt_view(r.date_updated) == opt_timestamp_text(t.date_updated),
    {
        TaskSerializer {
            id: t.id,
            title: t.title,
            description: t.description,
            status: String::from_str(t.status.as_str()),
            priority: String::from_str(t.priority.as_str()),
            uuid: t.uuid,
            due_date: format_opt_timestamp(t.due_date),
            date_created: format_timestamp(t.date_created),
            date_updated: format_opt_timestamp(t.date_updated),
        }
    }
}

impl LabelSerializer {
    pub fn from_label(l: Label) -> (r: LabelSerializer)
        ensures
            r.id == l.id,
            r.title == l.title,
    {
        LabelSerializer { id: l.id, title: l.title }
    }
}

impl FullTaskSerializer {
    /// A task with its labels, in the given order.
    pub fn from_parts(t: Task, labels: Vec<Label>) -> (r: FullTaskSerializer)
        requires
            valid_timestamp(t.date_created),
            valid_opt_timestamp(t.date_updated),
            valid_opt_timestamp(t.due_date),
        ensures
            r.task.id == t.id,
            r.task.title == t.title,
            r.task.description == t.description,
            r.task.status@ == status_text(t.status),
            r.task.priority@ == priority_text(t.priority),
            r.task.uuid == t.uuid,
            opt_view(r.task.due_date) == opt_timestamp_text(t.due_date),
            r.task.date_created@ == timestamp_text(t.date_created as int),
            opt_view(r.task.date_updated) == opt_timestamp_text(t.date_updated),
            r.labels@.len() == labels@.len(),
            forall|i: int|
                0 <= i < labels@.len() ==> (#[trigger] r.labels@[i]).id == labels@[i].id
                    && r.labels@[i].title == labels@[i].title,
    {
        let task = TaskSerializer::from_task(t);
        let mut out: Vec<LabelSerializer> = Vec::new();
        let mut rest = labels;
        let ghost orig = rest@;
        let mut rev: Vec<Label> = Vec::new();
        while rest.len() > 0
            invariant
                rest@.len() + rev@.len() == orig.len(),
                forall|i: int| 0 <= i < rest@.len() ==> rest@[i] == orig[i],
                forall|i: int| 0 <= i < rev@.len() ==> rev@[i] == orig[orig.len() - 1 - i],
            decreases rest@.len(),
        {
            let l = rest.pop().unwrap();
            rev.push(l);
        }
        while rev.len() > 0
            invariant
                out@.len() + rev@.len() == orig.len(),
                forall|i: int| 0 <= i < rev@.len() ==> rev@[i] == orig[orig.len() - 1 - i],
                forall|i: int|
                    0 <= i < out@.len() ==> (#[trigger] out@[i]).id == orig[i].id && out@[i].title
                        == orig[i].title,
            decreases rev@.len(),
        {
            let l = rev.pop().unwrap();
            out.push(LabelSerializer::from_label(l));
        }
        FullTaskSerializer { task, labels: out }
    }
}

} // verus!
