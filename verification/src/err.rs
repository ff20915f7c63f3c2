//! The application-level error taxonomy the presentation layer reports.

use crate::store::StoreError;
use vstd::prelude::*;
use vstd::string::StringExecFns;

verus! {

/// An error surfaced to a requester: an internal failure (hidden behind a
/// generic message), a rejected request, or a missing object.
#[derive(Debug)]
pub enum AppError {
    InternalError(String),
    BadRequest(String),
    GenericNotFound,
    NotFound(String, i64),
}

impl AppError {
    /// Map a storage failure from looking an object up: a missing row
    /// becomes a not-found error naming the object; anything else is
    /// internal.
    pub fn from_sql(object: &str, object_id: &i64, e: StoreError) -> (r: AppError)
        ensures
            match e {
                StoreError::NotFound => r matches AppError::NotFound(o, i) && o@ == object@ && i
                    == *object_id,
                _ => r is InternalError,
            },
    {
        match e {
            StoreError::NotFound => AppError::NotFound(object.to_owned(), *object_id),
            _ => AppError::InternalError("storage failure".to_owned()),
        }
    }

    /// The user-facing text of this error.
    pub fn message(&self) -> (r: String)
        ensures
            self matches AppError::InternalError(m) ==> r@ == "internal error: "@ + m@,
            self matches AppError::BadRequest(m) ==> r@ == "bad request: "@ + m@,
            self matches AppError::GenericNotFound ==> r@ == "not found"@,
            self matches AppError::NotFound(_, _) ==> r@ == "not found"@,
    {
        match self {
            AppError::InternalError(m) => "internal error: ".to_owned().concat(m.as_str()),
            AppError::BadRequest(m) => "bad request: ".to_owned().concat(m.as_str()),
            AppError::GenericNotFound => "not found".to_owned(),
            AppError::NotFound(_, _) => "not found".to_owned(),
        }
    }
}

} // verus!
