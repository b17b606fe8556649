//! The persisted task row and its mathematical image.

use vstd::prelude::*;

verus! {

/// A task row as the store hands it back: the generated identifier, the two
/// caller-supplied text fields, and the store's timestamps (carried along as
/// plain text when present; the handlers never read them).
pub struct TaskModel {
    pub id: u128,
    pub title: String,
    pub content: String,
    pub created_at: Option<String>,
    pub updated_at: Option<String>,
}

/// The mathematical image of a task row: every field as a plain value.
pub ghost struct TaskView {
    pub id: u128,
    pub title: Seq<char>,
    pub content: Seq<char>,
    pub created_at: Option<Seq<char>>,
    pub updated_at: Option<Seq<char>>,
}

/// The image of an optional text field.
pub open spec fn opt_text_view(o: Option<String>) -> Option<Seq<char>> {
    match o {
        Some(s) => Some(s@),
        None => None,
    }
}

impl View for TaskModel {
    type V = TaskView;

    open spec fn view(&self) -> TaskView {
        TaskView {
            id: self.id,
            title: self.title@,
            content: self.content@,
            created_at: opt_text_view(self.created_at),
            updated_at: opt_text_view(self.updated_at),
        }
    }
}

fn clone_opt_text(o: &Option<String>) -> (r: Option<String>)
    ensures
        opt_text_view(r) == opt_text_view(*o),
{
    match o {
        Some(s) => Some(s.clone()),
        None => None,
    }
}

impl Clone for TaskModel {
    fn clone(&self) -> (r: Self)
        ensures
            r@ == self@,
    {
        TaskModel {
            id: self.id,
            title: self.title.clone(),
            content: self.content.clone(),
            created_at: clone_opt_text(&self.created_at),
            updated_at: clone_opt_text(&self.updated_at),
        }
    }
}

} // verus!
