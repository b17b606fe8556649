//! The request shapes the handlers accept.

use vstd::prelude::*;

verus! {

/// The body of a create request: both fields required.
pub struct CreateTaskSchema {
    pub title: String,
    pub content: String,
}

/// The body of an update request: whatever was supplied is passed through
/// to the store as-is, absent fields included.
pub struct UpdateTaskSchema {
    pub title: Option<String>,
    pub content: Option<String>,
}

/// The query options of a listing request.
pub struct FilterOptions {
    pub limit: Option<i32>,
    pub page: Option<i32>,
}

} // verus!
