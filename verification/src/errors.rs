use vstd::prelude::*;

verus! {

/// Error taxonomy of the service core. Every store or handler operation
/// returns exactly one of these on failure; none is ever swallowed.
#[derive(Debug)]
pub enum AppError {
    /// Creation was attempted with a slug already in use.
    DuplicateSlug,
    /// A lookup or delete referenced a slug with no live entry.
    NotFound,
    /// The storage layer failed for a reason unrelated to the slug
    /// uniqueness invariant; the message describes the fault.
    StorageFault(String),
    /// The caller-supplied URL failed syntactic validation; the message
    /// describes why it could not be parsed.
    MalformedInput(String),
}

impl AppError {
    /// The status code and body that the API boundary reports for this
    /// error: conflict for a duplicate slug, not-found for a missing one,
    /// internal failure for a storage fault, bad request for a malformed URL.
    pub fn response_parts(&self) -> (r: (u16, String))
        ensures
            self matches AppError::DuplicateSlug ==> r.0 == 409 && r.1@ == "Slug already exists"@,
            self matches AppError::NotFound ==> r.0 == 404 && r.1@ == "Not Found"@,
            self matches AppError::StorageFault(m) ==> r.0 == 500 && r.1@ == m@,
            self matches AppError::MalformedInput(m) ==> r.0 == 400 && r.1@ == m@,
    {
        match self {
            AppError::DuplicateSlug => (409, "Slug already exists".to_string()),
            AppError::NotFound => (404, "Not Found".to_string()),
            AppError::StorageFault(m) => (500, m.clone()),
            AppError::MalformedInput(m) => (400, m.clone()),
        }
    }
}

} // verus!
