//! Listing filters built from query parameters. A present parameter adds one
//! predicate; an absent one adds none; predicates combine with AND.
use vstd::prelude::*;
use vstd::string::*;
use crate::model::{status_text, Task, User};
use crate::text::{contains_text, has_substring};

verus! {

/// The value of the first parameter named `key`.
pub open spec fn param_value(params: Seq<(String, String)>, key: Seq<char>) -> Option<String>
    decreases params.len(),
{
    if params.len() == 0 {
        None
    } else if params[0].0@ == key {
        Some(params[0].1)
    } else {
        param_value(params.drop_first(), key)
    }
}

/// Looks up the first parameter named `key`.
pub fn param(params: &Vec<(String, String)>, key: &str) -> (r: Option<String>)
    ensures
        r == param_value(params@, key@),
{
    let k = String::from_str(key);
    let mut i: usize = 0;
    assert(params@.subrange(0, params@.len() as int) =~= params@);
    while i < params.len()
        invariant
            0 <= i <= params@.len(),
            k@ == key@,
            param_value(params@, key@) == param_value(params@.subrange(i as int, params@.len() as int), key@),
        decreases params@.len() - i,
    {
        proof {
            assert(params@.subrange(i as int, params@.len() as int).drop_first() =~= params@.subrange(i + 1, params@.len() as int));
        }
        if params[i].0 == k {
            return Some(params[i].1.clone());
        }
        i += 1;
    }
    None
}

/// Filter of a task listing: exact match on the status text.
#[derive(Debug)]
pub struct TaskFilter {
    pub status: Option<String>,
}

/// Filter of a user listing: substring match on name, username and email.
#[derive(Debug)]
pub struct UserFilter {
    pub name: Option<String>,
    pub username: Option<String>,
    pub email: Option<String>,
}

/// `text` contains `part`, or no part is asked for.
pub open spec fn contains_part(text: Seq<char>, part: Option<String>) -> bool {
    match part {
        Some(p) => has_substring(text, p@),
        None => true,
    }
}

fn contains_opt(text: &String, part: &Option<String>) -> (r: bool)
    ensures
        r == contains_part(text@, *part),
{
    match part {
        Some(p) => contains_text(text.as_str(), p.as_str()),
        None => true,
    }
}

impl TaskFilter {
    /// Reads the `status` parameter.
    pub fn from_params(params: &Vec<(String, String)>) -> (r: TaskFilter)
        ensures
            r.status == param_value(params@, "status"@),
    {
        TaskFilter { status: param(params, "status") }
    }

    pub open spec fn matches(self, t: Task) -> bool {
        match self.status {
            Some(s) => status_text(t.status) == s@,
            None => true,
        }
    }

    pub fn accepts(&self, t: &Task) -> (r: bool)
        ensures
            r == self.matches(*t),
    {
        match &self.status {
            Some(s) => String::from_str(t.status.as_str()) == *s,
            None => true,
        }
    }
}

impl UserFilter {
    /// Reads the `name`, `username` and `email` parameters.
    pub fn from_params(params: &Vec<(String, String)>) -> (r: UserFilter)
        ensures
            r.name == param_value(params@, "name"@),
            r.username == param_value(params@, "username"@),
            r.email == param_value(params@, "email"@),
    {
        UserFilter {
            name: param(params, "name"),
            username: param(params, "username"),
            email: param(params, "email"),
        }
    }

    pub open spec fn matches(self, u: User) -> bool {
        &&& contains_part(u.name@, self.name)
        &&& contains_part(u.username@, self.username)
        &&& contains_part(u.email@, self.email)
    }

    pub fn accepts(&self, u: &User) -> (r: bool)
        ensures
            r == self.matches(*u),
    {
        contains_opt(&u.name, &self.name) && contains_opt(&u.username, &self.username)
            && contains_opt(&u.email, &self.email)
    }
}

} // verus!
