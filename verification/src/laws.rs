//! The service's laws, proved over the store outcomes that the handlers'
//! contracts are stated with.

use vstd::prelude::*;
use crate::model::TaskView;
use crate::store::{
    contains_id, find_id, get_outcome, insert_desc, insert_outcome, page_of, select_outcome,
    sorted_desc, update_outcome, StoreError,
};

verus! {

/// `find_id` succeeds exactly when some row carries the id, and what it
/// finds carries the id.
proof fn lemma_find_contains(rows: Seq<TaskView>, id: u128)
    ensures
        (find_id(rows, id) is Some) <==> contains_id(rows, id),
        find_id(rows, id) matches Some(t) ==> t.id == id,
    decreases rows.len(),
{
    if rows.len() == 0 {
    } else if rows[0].id == id {
        assert(contains_id(rows, id));
    } else {
        lemma_find_contains(rows.drop_first(), id);
        if contains_id(rows, id) {
            let i = choose|i: int| 0 <= i < rows.len() && rows[i].id == id;
            assert(rows.drop_first()[i - 1] == rows[i]);
            assert(contains_id(rows.drop_first(), id));
        }
        if contains_id(rows.drop_first(), id) {
            let i = choose|i: int|
                0 <= i < rows.drop_first().len() && rows.drop_first()[i].id == id;
            assert(rows[i + 1] == rows.drop_first()[i]);
            assert(contains_id(rows, id));
        }
    }
}

/// A freshly slotted-in row is what a lookup of its id finds.
proof fn lemma_insert_find_new(rows: Seq<TaskView>, t: TaskView)
    requires
        !contains_id(rows, t.id),
    ensures
        find_id(insert_desc(rows, t), t.id) == Some(t),
    decreases rows.len(),
{
    if rows.len() == 0 {
        assert(insert_desc(rows, t) =~= seq![t]);
        assert(seq![t][0] == t);
    } else if rows[0].id > t.id {
        assert(!contains_id(rows.drop_first(), t.id)) by {
            if contains_id(rows.drop_first(), t.id) {
                let i = choose|i: int|
                    0 <= i < rows.drop_first().len() && rows.drop_first()[i].id == t.id;
                assert(rows[i + 1] == rows.drop_first()[i]);
                assert(contains_id(rows, t.id));
            }
        }
        lemma_insert_find_new(rows.drop_first(), t);
        let merged = seq![rows[0]] + insert_desc(rows.drop_first(), t);
        assert(rows[0].id != t.id);
        assert(merged[0] == rows[0]);
        assert(merged.drop_first() =~= insert_desc(rows.drop_first(), t));
    } else {
        let merged = seq![t] + rows;
        assert(merged[0] == t);
    }
}

/// Slotting a row in moves no other id: every other lookup is unchanged.
proof fn lemma_insert_find_other(rows: Seq<TaskView>, t: TaskView, id2: u128)
    requires
        id2 != t.id,
    ensures
        find_id(insert_desc(rows, t), id2) == find_id(rows, id2),
    decreases rows.len(),
{
    if rows.len() == 0 {
        assert(insert_desc(rows, t) =~= seq![t]);
        assert(seq![t][0] == t);
        assert(seq![t].drop_first() =~= Seq::<TaskView>::empty());
        assert(find_id(Seq::<TaskView>::empty(), id2) is None);
        assert(find_id(seq![t], id2) is None);
        assert(find_id(rows, id2) is None);
    } else if rows[0].id > t.id {
        lemma_insert_find_other(rows.drop_first(), t, id2);
        let merged = seq![rows[0]] + insert_desc(rows.drop_first(), t);
        assert(merged.len() > 0);
        assert(merged[0] == rows[0]);
        assert(merged.drop_first() =~= insert_desc(rows.drop_first(), t));
        if rows[0].id == id2 {
            assert(find_id(merged, id2) == Some(rows[0]));
            assert(find_id(rows, id2) == Some(rows[0]));
        } else {
            assert(find_id(merged, id2) == find_id(insert_desc(rows.drop_first(), t), id2));
            assert(find_id(rows, id2) == find_id(rows.drop_first(), id2));
        }
    } else {
        let merged = seq![t] + rows;
        assert(merged.len() > 0);
        assert(merged[0] == t);
        assert(merged.drop_first() =~= rows);
        assert(find_id(merged, id2) == find_id(rows, id2));
    }
}

/// A create that succeeds stores and returns exactly the submitted title
/// and content under the given id, and that id is present afterwards.
pub proof fn lemma_create_returns_submitted(
    rows: Seq<TaskView>,
    id: u128,
    title: Seq<char>,
    content: Seq<char>,
)
    requires
        insert_outcome(rows, id, title, content).0 is Ok,
    ensures
        ({
            let (r, rows2) = insert_outcome(rows, id, title, content);
            &&& r matches Ok(t) && t.id == id && t.title == title && t.content == content
            &&& contains_id(rows2, id)
            &&& find_id(rows2, id) == Some(r.unwrap())
        }),
{
    let (r, rows2) = insert_outcome(rows, id, title, content);
    let t = r.unwrap();
    lemma_insert_find_new(rows, t);
    lemma_find_contains(rows2, id);
}

/// Two creates that both succeed were given distinct ids: an id, once
/// stored, is never accepted again.
pub proof fn lemma_create_ids_distinct(
    rows: Seq<TaskView>,
    id1: u128,
    title1: Seq<char>,
    content1: Seq<char>,
    id2: u128,
    title2: Seq<char>,
    content2: Seq<char>,
)
    requires
        insert_outcome(rows, id1, title1, content1).0 is Ok,
        insert_outcome(insert_outcome(rows, id1, title1, content1).1, id2, title2, content2).0
            is Ok,
    ensures
        id1 != id2,
{
    lemma_create_returns_submitted(rows, id1, title1, content1);
}

/// Two distinct rows of a well-formed table never share an id: within the
/// table an id is globally unique.
pub proof fn lemma_store_ids_unique(rows: Seq<TaskView>)
    requires
        sorted_desc(rows),
    ensures
        forall|i: int, j: int| 0 <= i < j < rows.len() ==> rows[i].id != rows[j].id,
{
}

/// Listing an empty store with lawful bounds yields the empty page, not an
/// error.
pub proof fn lemma_list_empty_store(limit: int, offset: int)
    requires
        0 <= limit,
        0 <= offset,
    ensures
        select_outcome(Seq::<TaskView>::empty(), limit, offset) == Ok::<
            Seq<TaskView>,
            StoreError,
        >(Seq::<TaskView>::empty()),
{
    assert(page_of(Seq::<TaskView>::empty(), limit, offset) =~= Seq::<TaskView>::empty());
}

/// A page never holds more rows than the limit, and its rows are the
/// store's rows from the offset on, in the store's order.
pub proof fn lemma_page_within_limit(rows: Seq<TaskView>, limit: int, offset: int)
    requires
        0 <= limit,
        0 <= offset,
    ensures
        page_of(rows, limit, offset).len() <= limit,
        forall|i: int|
            0 <= i < page_of(rows, limit, offset).len() ==> page_of(rows, limit, offset)[i]
                == rows[offset + i],
{
}

/// Two distinct pages of the same listing share no row id.
pub proof fn lemma_pages_no_overlap(rows: Seq<TaskView>, limit: int, page1: int, page2: int)
    requires
        sorted_desc(rows),
        0 <= limit,
        1 <= page1 < page2,
    ensures
        ({
            let p1 = page_of(rows, limit, (page1 - 1) * limit);
            let p2 = page_of(rows, limit, (page2 - 1) * limit);
            forall|i: int, j: int|
                0 <= i < p1.len() && 0 <= j < p2.len() ==> p1[i].id != p2[j].id
        }),
{
    let o1 = (page1 - 1) * limit;
    let o2 = (page2 - 1) * limit;
    assert(0 <= (page1 - 1) * limit && (page1 - 1) * limit + limit <= (page2 - 1) * limit)
        by (nonlinear_arith)
        requires
            1 <= page1 < page2,
            0 <= limit,
    ;
    let p1 = page_of(rows, limit, o1);
    let p2 = page_of(rows, limit, o2);
    assert forall|i: int, j: int|
        0 <= i < p1.len() && 0 <= j < p2.len() implies p1[i].id != p2[j].id by {
        assert(p1[i] == rows[o1 + i]);
        assert(p2[j] == rows[o2 + j]);
        assert(o1 + i < o1 + limit <= o2 + j);
        assert(rows[o1 + i].id > rows[o2 + j].id);
    }
}

/// Reading back the id a successful create returned yields exactly the row
/// that create returned.
pub proof fn lemma_get_after_create(
    rows: Seq<TaskView>,
    id: u128,
    title: Seq<char>,
    content: Seq<char>,
)
    requires
        insert_outcome(rows, id, title, content).0 is Ok,
    ensures
        get_outcome(insert_outcome(rows, id, title, content).1, id) == Ok::<
            TaskView,
            StoreError,
        >(insert_outcome(rows, id, title, content).0.unwrap()),
{
    let (r, rows2) = insert_outcome(rows, id, title, content);
    lemma_insert_find_new(rows, r.unwrap());
}

/// Reading an id that no row carries is an error — the same row-not-found
/// failure as any other store error, never an empty success.
pub proof fn lemma_get_missing_is_error(rows: Seq<TaskView>, id: u128)
    requires
        !contains_id(rows, id),
    ensures
        get_outcome(rows, id) == Err::<TaskView, StoreError>(StoreError::RowNotFound),
{
    lemma_find_contains(rows, id);
}

/// The reply to a read is a function of the store contents alone: two
/// reads with no intervening write return identical data.
pub proof fn lemma_get_repeatable(rows: Seq<TaskView>, again: Seq<TaskView>, id: u128)
    requires
        again == rows,
    ensures
        get_outcome(rows, id) == get_outcome(again, id),
{
}

/// An update rewrites exactly the targeted row's title and content: the
/// returned row keeps the id, every id keeps its place, and every other
/// row is untouched.
pub proof fn lemma_update_replaces_exactly(
    rows: Seq<TaskView>,
    id: u128,
    title: Seq<char>,
    content: Seq<char>,
)
    requires
        contains_id(rows, id),
    ensures
        ({
            let (r, rows2) = update_outcome(rows, id, Some(title), Some(content));
            &&& r matches Ok(t) && t.id == id && t.title == title && t.content == content
            &&& rows2.len() == rows.len()
            &&& forall|j: int| 0 <= j < rows.len() ==> rows2[j].id == rows[j].id
            &&& forall|j: int| 0 <= j < rows.len() && rows[j].id != id ==> rows2[j] == rows[j]
        }),
{
    lemma_find_contains(rows, id);
}

/// Updating an id that no row carries is an error and moves nothing.
pub proof fn lemma_update_missing_is_error(
    rows: Seq<TaskView>,
    id: u128,
    title: Seq<char>,
    content: Seq<char>,
)
    requires
        !contains_id(rows, id),
    ensures
        update_outcome(rows, id, Some(title), Some(content)).0 == Err::<TaskView, StoreError>(
            StoreError::RowNotFound,
        ),
        update_outcome(rows, id, Some(title), Some(content)).1 == rows,
{
}

} // verus!
