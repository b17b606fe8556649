//! A verified model of the backing table: the exact outcome of each of the
//! four statements the service issues (insert returning, select with limit
//! and offset ordered by id descending, select by id, update returning).

use vstd::prelude::*;
use crate::model::{TaskModel, TaskView, opt_text_view};

verus! {

/// The ways a store call fails in this service: a duplicate generated id on
/// insert, a lookup or update that matched no row, a null written into a
/// column that requires a value, and a negative limit or offset.
#[derive(Clone, Copy, Debug, PartialEq, Eq, Structural)]
pub enum StoreError {
    UniqueViolation,
    RowNotFound,
    NotNullViolation,
    InvalidArgument,
}

/// The text of each failure, as the reply envelope carries it.
pub open spec fn store_error_message(e: StoreError) -> Seq<char> {
    match e {
        StoreError::UniqueViolation => "duplicate key value violates unique constraint"@,
        StoreError::RowNotFound => "no rows returned by a query that expected to return at least one row"@,
        StoreError::NotNullViolation => "null value in column violates not-null constraint"@,
        StoreError::InvalidArgument => "limit and offset must not be negative"@,
    }
}

impl StoreError {
    /// The text of this failure.
    pub fn message(&self) -> (s: String)
        ensures
            s@ == store_error_message(*self),
    {
        match self {
            StoreError::UniqueViolation => String::from_str(
                "duplicate key value violates unique constraint",
            ),
            StoreError::RowNotFound => String::from_str(
                "no rows returned by a query that expected to return at least one row",
            ),
            StoreError::NotNullViolation => String::from_str(
                "null value in column violates not-null constraint",
            ),
            StoreError::InvalidArgument => String::from_str(
                "limit and offset must not be negative",
            ),
        }
    }
}

/// The image of a row-returning store call: the row it handed back, or how
/// it failed.
pub open spec fn result_view(r: Result<TaskModel, StoreError>) -> Result<TaskView, StoreError> {
    match r {
        Ok(t) => Ok(t@),
        Err(e) => Err(e),
    }
}

/// The image of a vector of rows.
pub open spec fn rows_view(rows: Seq<TaskModel>) -> Seq<TaskView> {
    rows.map_values(|t: TaskModel| t@)
}

/// Rows ordered by id, newest (largest) first, with no id repeated.
pub open spec fn sorted_desc(rows: Seq<TaskView>) -> bool {
    forall|i: int, j: int| 0 <= i < j < rows.len() ==> rows[i].id > rows[j].id
}

/// Whether some row carries the given id.
pub open spec fn contains_id(rows: Seq<TaskView>, id: u128) -> bool {
    exists|i: int| 0 <= i < rows.len() && rows[i].id == id
}

/// The first row carrying the given id, if any.
pub open spec fn find_id(rows: Seq<TaskView>, id: u128) -> Option<TaskView>
    decreases rows.len(),
{
    if rows.len() == 0 {
        None
    } else if rows[0].id == id {
        Some(rows[0])
    } else {
        find_id(rows.drop_first(), id)
    }
}

/// The rows with a new row slotted into descending-id order.
pub open spec fn insert_desc(rows: Seq<TaskView>, t: TaskView) -> Seq<TaskView>
    decreases rows.len(),
{
    if rows.len() == 0 {
        seq![t]
    } else if rows[0].id > t.id {
        seq![rows[0]] + insert_desc(rows.drop_first(), t)
    } else {
        seq![t] + rows
    }
}

/// The page a select with the given limit and offset returns: the window
/// [offset, offset + limit) of the ordered rows, clipped to what exists.
pub open spec fn page_of(rows: Seq<TaskView>, limit: int, offset: int) -> Seq<TaskView>
    recommends
        0 <= limit,
        0 <= offset,
{
    let lo = if offset <= rows.len() {
        offset
    } else {
        rows.len() as int
    };
    let hi = if offset + limit <= rows.len() {
        offset + limit
    } else {
        rows.len() as int
    };
    rows.subrange(lo, hi)
}

/// What an insert returns and what it leaves behind: the stored row under
/// the generated id, unless that id already exists.
pub open spec fn insert_outcome(
    rows: Seq<TaskView>,
    id: u128,
    title: Seq<char>,
    content: Seq<char>,
) -> (Result<TaskView, StoreError>, Seq<TaskView>) {
    if contains_id(rows, id) {
        (Err(StoreError::UniqueViolation), rows)
    } else {
        let t = TaskView { id, title, content, created_at: None, updated_at: None };
        (Ok(t), insert_desc(rows, t))
    }
}

/// What a select by id returns: the matching row, or a row-not-found error.
pub open spec fn get_outcome(rows: Seq<TaskView>, id: u128) -> Result<TaskView, StoreError> {
    match find_id(rows, id) {
        Some(t) => Ok(t),
        None => Err(StoreError::RowNotFound),
    }
}

/// What a paged select returns: the page, unless a bound is negative.
pub open spec fn select_outcome(rows: Seq<TaskView>, limit: int, offset: int) -> Result<
    Seq<TaskView>,
    StoreError,
> {
    if limit < 0 || offset < 0 {
        Err(StoreError::InvalidArgument)
    } else {
        Ok(page_of(rows, limit, offset))
    }
}

/// What an update returns and what it leaves behind: the matched row with
/// both text fields replaced, every other row untouched; an error if either
/// value is absent (the columns require a value) or no row matches.
pub open spec fn update_outcome(
    rows: Seq<TaskView>,
    id: u128,
    title: Option<Seq<char>>,
    content: Option<Seq<char>>,
) -> (Result<TaskView, StoreError>, Seq<TaskView>) {
    if title is None || content is None {
        (Err(StoreError::NotNullViolation), rows)
    } else if !contains_id(rows, id) {
        (Err(StoreError::RowNotFound), rows)
    } else {
        let prev = find_id(rows, id).unwrap();
        let t = TaskView {
            id,
            title: title.unwrap(),
            content: content.unwrap(),
            created_at: prev.created_at,
            updated_at: prev.updated_at,
        };
        (Ok(t), Seq::new(rows.len(), |j: int| if rows[j].id == id { t } else { rows[j] }))
    }
}

/// The in-memory model of the task table. Its contents stand in for the
/// durable rows; its methods promise exactly what the statements do.
pub struct TaskStore {
    rows: Vec<TaskModel>,
}

impl View for TaskStore {
    type V = Seq<TaskView>;

    closed spec fn view(&self) -> Seq<TaskView> {
        rows_view(self.rows@)
    }
}

impl TaskStore {
    /// The table's invariant: rows sorted by id descending, ids unique.
    pub open spec fn wf(&self) -> bool {
        sorted_desc(self@)
    }

    /// An empty table.
    pub fn new() -> (s: TaskStore)
        ensures
            s@ == Seq::<TaskView>::empty(),
            s.wf(),
    {
        let s = TaskStore { rows: Vec::new() };
        proof {
            assert(s@ =~= Seq::<TaskView>::empty());
        }
        s
    }

    /// Insert a row under a caller-supplied id, returning the stored row.
    pub fn insert(&mut self, id: u128, title: String, content: String) -> (r: Result<
        TaskModel,
        StoreError,
    >)
        requires
            old(self).wf(),
        ensures
            final(self).wf(),
            result_view(r) == insert_outcome(old(self)@, id, title@, content@).0,
            final(self)@ == insert_outcome(old(self)@, id, title@, content@).1,
    {
        let ghost rows0 = self@;
        let mut i: usize = 0;
        while i < self.rows.len() && self.rows[i].id > id
            invariant
                *self == *old(self),
                rows0 == self@,
                sorted_desc(rows0),
                i <= self.rows.len(),
                forall|j: int| 0 <= j < i ==> self@[j].id > id,
            decreases self.rows.len() - i,
        {
            i += 1;
        }
        if i < self.rows.len() && self.rows[i].id == id {
            assert(contains_id(rows0, id));
            return Err(StoreError::UniqueViolation);
        }
        proof {
            assert forall|k: int| 0 <= k < rows0.len() implies rows0[k].id != id by {
                if k >= i {
                    assert(rows0[i as int].id < id);
                    if k > i {
                        assert(rows0[k].id < rows0[i as int].id);
                    }
                }
            }
            assert(!contains_id(rows0, id));
        }
        let t = TaskModel { id, title, content, created_at: None, updated_at: None };
        let out = t.clone();
        let ghost tv = t@;
        self.rows.insert(i, t);
        proof {
            assert(self@ =~= rows0.subrange(0, i as int) + seq![tv] + rows0.subrange(
                i as int,
                rows0.len() as int,
            ));
            lemma_insert_desc_at(rows0, tv, i as int);
            lemma_insert_desc_sorted(rows0, tv, i as int);
        }
        Ok(out)
    }

    /// Select the single row carrying the given id.
    pub fn get(&self, id: u128) -> (r: Result<TaskModel, StoreError>)
        ensures
            result_view(r) == get_outcome(self@, id),
    {
        let mut i: usize = 0;
        while i < self.rows.len()
            invariant
                i <= self.rows.len(),
                forall|j: int| 0 <= j < i ==> self@[j].id != id,
            decreases self.rows.len() - i,
        {
            if self.rows[i].id == id {
                proof {
                    lemma_find_id_first(self@, id, i as int);
                }
                return Ok(self.rows[i].clone());
            }
            i += 1;
        }
        proof {
            lemma_find_id_none(self@, id);
        }
        Err(StoreError::RowNotFound)
    }

    /// Select a page: up to `limit` rows starting `offset` rows in, in the
    /// table's descending-id order.
    pub fn select_page(&self, limit: i32, offset: i64) -> (r: Result<Vec<TaskModel>, StoreError>)
        ensures
            match r {
                Ok(v) => Ok::<Seq<TaskView>, StoreError>(rows_view(v@)) == select_outcome(
                    self@,
                    limit as int,
                    offset as int,
                ),
                Err(e) => Err::<Seq<TaskView>, StoreError>(e) == select_outcome(
                    self@,
                    limit as int,
                    offset as int,
                ),
            },
    {
        if limit < 0 || offset < 0 {
            return Err(StoreError::InvalidArgument);
        }
        let len: usize = self.rows.len();
        let mut out: Vec<TaskModel> = Vec::new();
        if offset as u64 >= len as u64 {
            proof {
                assert(rows_view(out@) =~= page_of(self@, limit as int, offset as int));
            }
            return Ok(out);
        }
        let start: usize = offset as usize;
        let cap: usize = limit as usize;
        let mut i: usize = start;
        while i < len && i - start < cap
            invariant
                len == self.rows.len(),
                start <= i <= len,
                i - start <= cap,
                out@.len() == i - start,
                forall|k: int| 0 <= k < out@.len() ==> out@[k]@ == self@[start + k],
            decreases len - i,
        {
            out.push(self.rows[i].clone());
            i += 1;
        }
        proof {
            assert(rows_view(out@) =~= page_of(self@, limit as int, offset as int));
        }
        Ok(out)
    }

    /// Update the row carrying the given id, setting both text fields to
    /// whatever was supplied, and return the rewritten row.
    pub fn update(&mut self, id: u128, title: Option<String>, content: Option<String>) -> (r:
        Result<TaskModel, StoreError>)
        requires
            old(self).wf(),
        ensures
            final(self).wf(),
            result_view(r) == update_outcome(
                old(self)@,
                id,
                opt_text_view(title),
                opt_text_view(content),
            ).0,
            final(self)@ == update_outcome(
                old(self)@,
                id,
                opt_text_view(title),
                opt_text_view(content),
            ).1,
    {
        if title.is_none() || content.is_none() {
            return Err(StoreError::NotNullViolation);
        }
        let new_title = title.unwrap();
        let new_content = content.unwrap();
        let ghost rows0 = self@;
        let mut i: usize = 0;
        while i < self.rows.len()
            invariant
                *self == *old(self),
                rows0 == self@,
                sorted_desc(rows0),
                opt_text_view(title) == Some(new_title@),
                opt_text_view(content) == Some(new_content@),
                i <= self.rows.len(),
                forall|j: int| 0 <= j < i ==> self@[j].id != id,
            decreases self.rows.len() - i,
        {
            if self.rows[i].id == id {
                let ghost iidx = i as int;
                proof {
                    assert(rows0[iidx].id == id);
                    assert(contains_id(rows0, id));
                    lemma_find_id_first(rows0, id, iidx);
                    assert forall|j: int|
                        0 <= j < rows0.len() && j != iidx implies rows0[j].id != id by {
                        if j > iidx {
                            assert(rows0[iidx].id > rows0[j].id);
                        }
                    }
                }
                let prev = self.rows.remove(i);
                let row = TaskModel {
                    id,
                    title: new_title,
                    content: new_content,
                    created_at: prev.created_at,
                    updated_at: prev.updated_at,
                };
                let out = row.clone();
                let ghost rv = row@;
                proof {
                    assert(prev@ == rows0[iidx]);
                    assert(rv == (TaskView {
                        id,
                        title: new_title@,
                        content: new_content@,
                        created_at: rows0[iidx].created_at,
                        updated_at: rows0[iidx].updated_at,
                    }));
                }
                self.rows.insert(i, row);
                proof {
                    let rows1 = update_outcome(
                        rows0,
                        id,
                        Some(new_title@),
                        Some(new_content@),
                    ).1;
                    assert(rows1.len() == rows0.len());
                    assert forall|j: int| 0 <= j < rows0.len() implies self@[j] == rows1[j] by {
                        if j == iidx {
                            assert(self@[j] == rv);
                        } else if j < iidx {
                            assert(self@[j] == rows0[j]);
                        } else {
                            assert(self@[j] == rows0[j]);
                        }
                    }
                    assert(self@ =~= rows1);
                    assert forall|p: int, q: int|
                        0 <= p < q < self@.len() implies self@[p].id > self@[q].id by {
                        assert(self@[p].id == rows0[p].id);
                        assert(self@[q].id == rows0[q].id);
                    }
                }
                return Ok(out);
            }
            i += 1;
        }
        proof {
            lemma_find_id_none(self@, id);
        }
        Err(StoreError::RowNotFound)
    }
}

/// Where the scan stopped is where `find_id` stops: the first index whose
/// row carries the id.
proof fn lemma_find_id_first(rows: Seq<TaskView>, id: u128, i: int)
    requires
        0 <= i < rows.len(),
        rows[i].id == id,
        forall|j: int| 0 <= j < i ==> rows[j].id != id,
    ensures
        find_id(rows, id) == Some(rows[i]),
    decreases i,
{
    if i == 0 {
    } else {
        lemma_find_id_first(rows.drop_first(), id, i - 1);
        assert(rows.drop_first()[i - 1] == rows[i]);
    }
}

/// A scan that saw every row and matched none decides `find_id`.
proof fn lemma_find_id_none(rows: Seq<TaskView>, id: u128)
    requires
        forall|j: int| 0 <= j < rows.len() ==> rows[j].id != id,
    ensures
        find_id(rows, id) is None,
    decreases rows.len(),
{
    if rows.len() > 0 {
        lemma_find_id_none(rows.drop_first(), id);
    }
}

/// Slotting a row in at the position the scan found is what `insert_desc`
/// computes.
proof fn lemma_insert_desc_at(rows: Seq<TaskView>, t: TaskView, i: int)
    requires
        0 <= i <= rows.len(),
        forall|j: int| 0 <= j < i ==> rows[j].id > t.id,
        i < rows.len() ==> rows[i].id < t.id,
    ensures
        insert_desc(rows, t) == rows.subrange(0, i) + seq![t] + rows.subrange(
            i,
            rows.len() as int,
        ),
    decreases i,
{
    if i == 0 {
        assert(insert_desc(rows, t) =~= rows.subrange(0, 0) + seq![t] + rows.subrange(
            0,
            rows.len() as int,
        ));
    } else {
        let rest = rows.drop_first();
        lemma_insert_desc_at(rest, t, i - 1);
        assert(insert_desc(rows, t) =~= rows.subrange(0, i) + seq![t] + rows.subrange(
            i,
            rows.len() as int,
        ));
    }
}

/// Slotting a fresh id into a sorted table keeps it sorted.
proof fn lemma_insert_desc_sorted(rows: Seq<TaskView>, t: TaskView, i: int)
    requires
        sorted_desc(rows),
        0 <= i <= rows.len(),
        forall|j: int| 0 <= j < i ==> rows[j].id > t.id,
        i < rows.len() ==> rows[i].id < t.id,
    ensures
        sorted_desc(rows.subrange(0, i) + seq![t] + rows.subrange(i, rows.len() as int)),
{
    let merged = rows.subrange(0, i) + seq![t] + rows.subrange(i, rows.len() as int);
    assert forall|p: int, q: int|
        0 <= p < q < merged.len() implies merged[p].id > merged[q].id by {
        if p < i {
            assert(merged[p] == rows[p]);
        } else if p == i {
            assert(merged[p] == t);
        } else {
            assert(merged[p] == rows[p - 1]);
        }
        if q < i {
            assert(merged[q] == rows[q]);
        } else if q == i {
            assert(merged[q] == t);
        } else {
            assert(merged[q] == rows[q - 1]);
        }
    }
}

} // verus!
