//! The request handlers: each one takes the request's values, performs the
//! one store call of its route, and shapes the outcome into the reply
//! envelope (HTTP 200 with an ok body, HTTP 500 with an error body).

use vstd::prelude::*;
use crate::json::{
    create_ok_body, error_body, health_body, render_create_ok, render_error, render_health,
    render_task_ok, render_tasks_ok, task_ok_body, tasks_ok_body,
};
use crate::model::opt_text_view;
use crate::schema::{CreateTaskSchema, FilterOptions, UpdateTaskSchema};
use crate::store::{
    get_outcome, insert_outcome, select_outcome, store_error_message, update_outcome, TaskStore,
};

verus! {

/// A shaped reply: the HTTP status and the JSON body.
pub struct ApiResponse {
    pub status: u16,
    pub body: String,
}

/// The listing limit after the default is applied: ten when absent.
pub open spec fn effective_limit(opts: FilterOptions) -> int {
    match opts.limit {
        Some(l) => l as int,
        None => 10,
    }
}

/// The requested page after the default is applied: the first when absent.
pub open spec fn effective_page(opts: FilterOptions) -> int {
    match opts.page {
        Some(p) => p as int,
        None => 1,
    }
}

/// The offset handed to the store: full pages skipped. A page of zero or
/// less yields a negative offset, passed through for the store to refuse.
pub open spec fn effective_offset(opts: FilterOptions) -> int {
    (effective_page(opts) - 1) * effective_limit(opts)
}

/// The limit and offset a listing request binds into its query.
pub fn query_bounds(opts: &FilterOptions) -> (r: (i32, i64))
    ensures
        r.0 as int == effective_limit(*opts),
        r.1 as int == effective_offset(*opts),
{
    let limit: i32 = match opts.limit {
        Some(l) => l,
        None => 10,
    };
    let page: i32 = match opts.page {
        Some(p) => p,
        None => 1,
    };
    let p64: i64 = page as i64 - 1;
    let l64: i64 = limit as i64;
    proof {
        assert(p64 * l64 <= i64::MAX && p64 * l64 >= i64::MIN) by (nonlinear_arith)
            requires
                -0x8000_0001 <= p64 <= 0x8000_0000,
                -0x8000_0000 <= l64 <= 0x7fff_ffff,
        ;
    }
    let offset: i64 = p64 * l64;
    (limit, offset)
}

/// The liveness route: always the ok envelope, nothing else.
pub fn healthchecker() -> (r: ApiResponse)
    ensures
        r.status == 200,
        r.body@ == health_body(),
{
    ApiResponse { status: 200, body: render_health() }
}

/// The create route: insert the submitted fields under the id the store
/// generated, and reply with the stored row, doubly wrapped as this
/// service has always written it; any store failure becomes the error
/// envelope.
pub fn create_task(store: &mut TaskStore, body: CreateTaskSchema, id: u128) -> (r: ApiResponse)
    requires
        old(store).wf(),
    ensures
        final(store).wf(),
        final(store)@ == insert_outcome(old(store)@, id, body.title@, body.content@).1,
        (match insert_outcome(old(store)@, id, body.title@, body.content@).0 {
            Ok(t) => r.status == 200 && r.body@ == create_ok_body(t),
            Err(e) => r.status == 500 && r.body@ == error_body(store_error_message(e)),
        }),
{
    match store.insert(id, body.title, body.content) {
        Ok(t) => ApiResponse { status: 200, body: render_create_ok(&t) },
        Err(e) => ApiResponse { status: 500, body: render_error(e.message().as_str()) },
    }
}

/// The listing route: apply the defaults, skip full pages, and reply with
/// the page of rows in descending-id order; a negative bound is passed to
/// the store and its refusal becomes the error envelope.
pub fn get_tasks(store: &TaskStore, opts: &FilterOptions) -> (r: ApiResponse)
    ensures
        (match select_outcome(store@, effective_limit(*opts), effective_offset(*opts)) {
            Ok(ts) => r.status == 200 && r.body@ == tasks_ok_body(ts),
            Err(e) => r.status == 500 && r.body@ == error_body(store_error_message(e)),
        }),
{
    let (limit, offset) = query_bounds(opts);
    match store.select_page(limit, offset) {
        Ok(ts) => ApiResponse { status: 200, body: render_tasks_ok(&ts) },
        Err(e) => ApiResponse { status: 500, body: render_error(e.message().as_str()) },
    }
}

/// The read route: look the row up by id and reply with it; a missing row
/// is a store failure here, surfaced as the same error envelope as any
/// other.
pub fn get_task(store: &TaskStore, id: u128) -> (r: ApiResponse)
    ensures
        (match get_outcome(store@, id) {
            Ok(t) => r.status == 200 && r.body@ == task_ok_body(t),
            Err(e) => r.status == 500 && r.body@ == error_body(store_error_message(e)),
        }),
{
    match store.get(id) {
        Ok(t) => ApiResponse { status: 200, body: render_task_ok(&t) },
        Err(e) => ApiResponse { status: 500, body: render_error(e.message().as_str()) },
    }
}

/// The update route: write both supplied fields through to the targeted
/// row and reply with the rewritten row; an absent field, a missing row or
/// any other store failure becomes the error envelope.
pub fn update_task(store: &mut TaskStore, id: u128, body: UpdateTaskSchema) -> (r: ApiResponse)
    requires
        old(store).wf(),
    ensures
        final(store).wf(),
        final(store)@ == update_outcome(
            old(store)@,
            id,
            opt_text_view(body.title),
            opt_text_view(body.content),
        ).1,
        (match update_outcome(
            old(store)@,
            id,
            opt_text_view(body.title),
            opt_text_view(body.content),
        ).0 {
            Ok(t) => r.status == 200 && r.body@ == task_ok_body(t),
            Err(e) => r.status == 500 && r.body@ == error_body(store_error_message(e)),
        }),
{
    match store.update(id, body.title, body.content) {
        Ok(t) => ApiResponse { status: 200, body: render_task_ok(&t) },
        Err(e) => ApiResponse { status: 500, body: render_error(e.message().as_str()) },
    }
}

} // verus!
