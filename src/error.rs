use vstd::prelude::*;

verus! {

/// Failure of a data-access operation.
#[derive(Clone, Debug, PartialEq, Eq)]
pub enum DbError {
    /// A lookup matched no row.
    NotFound,
    /// The request is malformed (a create without any category reference).
    BadRequest(String),
    /// Any other failure of the store, with its description.
    Internal(String),
}

/// What kind of failure a `DbError` is, leaving its text aside.
pub enum ErrorKind {
    NotFound,
    BadRequest,
    Internal,
}

impl View for DbError {
    type V = ErrorKind;

    open spec fn view(&self) -> ErrorKind {
        match self {
            DbError::NotFound => ErrorKind::NotFound,
            DbError::BadRequest(_) => ErrorKind::BadRequest,
            DbError::Internal(_) => ErrorKind::Internal,
        }
    }
}

/// The text of the failure of a create request that names no category.
pub open spec fn missing_category_text() -> Seq<char> {
    "Either id or name for category is needed."@
}

/// The failure of a create request that names no category.
pub fn missing_category() -> (r: DbError)
    ensures
        r matches DbError::BadRequest(text) && text@ == missing_category_text(),
{
    DbError::BadRequest("Either id or name for category is needed.".to_owned())
}

impl ErrorKind {
    /// The HTTP status that a failure of this kind is reported with.
    pub open spec fn status(self) -> u16 {
        match self {
            ErrorKind::NotFound => 404,
            ErrorKind::BadRequest => 400,
            ErrorKind::Internal => 500,
        }
    }
}

impl DbError {
    /// The HTTP status that this failure is reported with.
    pub fn status(&self) -> (r: u16)
        ensures
            r == self@.status(),
    {
        match self {
            DbError::NotFound => 404,
            DbError::BadRequest(_) => 400,
            DbError::Internal(_) => 500,
        }
    }

    /// The text that is sent back with the status.
    pub fn message(&self) -> (r: String)
        ensures
            self matches DbError::NotFound ==> r@ == "not found"@,
            self matches DbError::BadRequest(text) ==> r@ == text@,
            self matches DbError::Internal(text) ==> r@ == text@,
    {
        match self {
            DbError::NotFound => "not found".to_owned(),
            DbError::BadRequest(text) => text.clone(),
            DbError::Internal(text) => text.clone(),
        }
    }
}

} // verus!
