//! The error kinds that every operation of the library reports.
use vstd::prelude::*;
use vstd::string::*;

verus! {

/// One failed field constraint of a request payload.
#[derive(Debug)]
pub struct FieldError {
    pub field: String,
    pub message: String,
}

/// What went wrong, by kind; the boundary layer turns each kind into a status.
#[derive(Debug)]
pub enum AppError {
    /// The row is absent or belongs to someone else (the two are not told apart).
    NotFound(String),
    /// The payload broke field constraints; every failing field is listed.
    Validation(Vec<FieldError>),
    /// A uniqueness rule would be broken.
    Conflict(String),
    /// The caller's credentials are missing or invalid.
    Unauthorized(String),
    /// Any other failure; its detail is for logs only.
    Internal(String),
}

pub open spec fn status_of(e: AppError) -> u16 {
    match e {
        AppError::NotFound(_) => 404,
        AppError::Validation(_) => 400,
        AppError::Conflict(_) => 400,
        AppError::Unauthorized(_) => 401,
        AppError::Internal(_) => 500,
    }
}

/// `field: message` for each error, separated by `; `.
pub open spec fn joined_field_errors(es: Seq<FieldError>) -> Seq<char>
    decreases es.len(),
{
    if es.len() == 0 {
        Seq::empty()
    } else {
        let prev = joined_field_errors(es.drop_last());
        let item = es.last().field@ + ": "@ + es.last().message@;
        if es.len() == 1 {
            item
        } else {
            prev + "; "@ + item
        }
    }
}

pub open spec fn client_message(e: AppError) -> Seq<char> {
    match e {
        AppError::NotFound(m) => m@,
        AppError::Validation(es) => joined_field_errors(es@),
        AppError::Conflict(m) => m@,
        AppError::Unauthorized(m) => m@,
        AppError::Internal(_) => "Internal server error"@,
    }
}

impl AppError {
    /// The HTTP status that the boundary layer answers with.
    pub fn status_code(&self) -> (r: u16)
        ensures
            r == status_of(*self),
    {
        match self {
            AppError::NotFound(_) => 404,
            AppError::Validation(_) => 400,
            AppError::Conflict(_) => 400,
            AppError::Unauthorized(_) => 401,
            AppError::Internal(_) => 500,
        }
    }

    /// The message shown to the client; an internal failure shows a generic one.
    pub fn message(&self) -> (r: String)
        ensures
            r@ == client_message(*self),
    {
        match self {
            AppError::NotFound(m) => m.clone(),
            AppError::Validation(es) => {
                let mut out = String::new();
                let mut i: usize = 0;
                while i < es.len()
                    invariant
                        0 <= i <= es@.len(),
                        out@ == joined_field_errors(es@.subrange(0, i as int)),
                    decreases es@.len() - i,
                {
                    proof {
                        assert(es@.subrange(0, i + 1).drop_last() =~= es@.subrange(0, i as int));
                    }
                    if i > 0 {
                        out.append("; ");
                    }
                    out.append(es[i].field.as_str());
                    out.append(": ");
                    out.append(es[i].message.as_str());
                    i += 1;
                }
                assert(es@.subrange(0, es@.len() as int) =~= es@);
                out
            },
            AppError::Conflict(m) => m.clone(),
            AppError::Unauthorized(m) => m.clone(),
            AppError::Internal(_) => String::from_str("Internal server error"),
        }
    }
}

} // verus!
