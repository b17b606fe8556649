use task_api::json::uuid_string;
use task_api::model::TaskModel;
use task_api::schema::{CreateTaskSchema, FilterOptions, UpdateTaskSchema};
use task_api::services::{
    create_task, get_task, get_tasks, healthchecker, query_bounds, update_task, ApiResponse,
};
use task_api::store::{StoreError, TaskStore};

fn create(store: &mut TaskStore, title: &str, content: &str, id: u128) -> ApiResponse {
    create_task(
        store,
        CreateTaskSchema { title: title.to_string(), content: content.to_string() },
        id,
    )
}

fn opts(limit: Option<i32>, page: Option<i32>) -> FilterOptions {
    FilterOptions { limit, page }
}

#[test]
fn health_is_ok_envelope() {
    let r = healthchecker();
    assert_eq!(r.status, 200);
    assert_eq!(r.body, "{\"status\":\"ok\"}");
}

#[test]
fn uuid_text_is_hyphenated_lowercase_hex() {
    let s = uuid_string(0x0123456789abcdef0123456789abcdef);
    assert_eq!(s, "01234567-89ab-cdef-0123-456789abcdef");
    assert_eq!(uuid_string(1), "00000000-0000-0000-0000-000000000001");
    assert_eq!(uuid_string(0), "00000000-0000-0000-0000-000000000000");
    assert_eq!(uuid_string(u128::MAX), "ffffffff-ffff-ffff-ffff-ffffffffffff");
}

#[test]
fn create_returns_submitted_fields() {
    let mut store = TaskStore::new();
    let r = create(&mut store, "a", "b", 1);
    assert_eq!(r.status, 200);
    assert_eq!(
        r.body,
        "{\"status\":\"ok\",\"task\":{\"task\":{\"id\":\"00000000-0000-0000-0000-000000000001\",\"title\":\"a\",\"content\":\"b\"}}}"
    );
}

#[test]
fn create_escapes_special_characters() {
    let mut store = TaskStore::new();
    let r = create(&mut store, "a\"b\\c\nd", "tab\there", 1);
    assert_eq!(r.status, 200);
    assert!(r.body.contains("\"title\":\"a\\\"b\\\\c\\u000ad\""));
    assert!(r.body.contains("\"content\":\"tab\\u0009here\""));
}

#[test]
fn create_accepts_empty_strings() {
    let mut store = TaskStore::new();
    let r = create(&mut store, "", "", 3);
    assert_eq!(r.status, 200);
    assert!(r.body.contains("\"title\":\"\""));
    assert!(r.body.contains("\"content\":\"\""));
}

#[test]
fn create_keeps_plain_unicode_unescaped() {
    let mut store = TaskStore::new();
    let r = create(&mut store, "héllo", "wörld", 4);
    assert_eq!(r.status, 200);
    assert!(r.body.contains("\"title\":\"héllo\""));
    assert!(r.body.contains("\"content\":\"wörld\""));
}

#[test]
fn create_with_taken_id_is_error() {
    let mut store = TaskStore::new();
    let first = create(&mut store, "a", "b", 7);
    assert_eq!(first.status, 200);
    let second = create(&mut store, "x", "y", 7);
    assert_eq!(second.status, 500);
    assert_eq!(
        second.body,
        "{\"status\":\"error\",\"message\":\"duplicate key value violates unique constraint\"}"
    );
}

#[test]
fn list_on_empty_store_is_empty_not_error() {
    let store = TaskStore::new();
    let r = get_tasks(&store, &opts(None, None));
    assert_eq!(r.status, 200);
    assert_eq!(r.body, "{\"status\":\"ok\",\"tasks\":[]}");
}

#[test]
fn list_defaults_are_limit_ten_page_one() {
    let (limit, offset) = query_bounds(&opts(None, None));
    assert_eq!(limit, 10);
    assert_eq!(offset, 0);
    let (limit, offset) = query_bounds(&opts(Some(2), Some(3)));
    assert_eq!(limit, 2);
    assert_eq!(offset, 4);
}

#[test]
fn list_pages_are_descending_and_disjoint() {
    let mut store = TaskStore::new();
    for id in 1..=4u128 {
        let r = create(&mut store, "t", "c", id);
        assert_eq!(r.status, 200);
    }
    let page1 = get_tasks(&store, &opts(Some(2), Some(1)));
    assert_eq!(page1.status, 200);
    assert_eq!(
        page1.body,
        "{\"status\":\"ok\",\"tasks\":[\
         {\"id\":\"00000000-0000-0000-0000-000000000004\",\"title\":\"t\",\"content\":\"c\"},\
         {\"id\":\"00000000-0000-0000-0000-000000000003\",\"title\":\"t\",\"content\":\"c\"}]}"
    );
    let page2 = get_tasks(&store, &opts(Some(2), Some(2)));
    assert_eq!(page2.status, 200);
    assert_eq!(
        page2.body,
        "{\"status\":\"ok\",\"tasks\":[\
         {\"id\":\"00000000-0000-0000-0000-000000000002\",\"title\":\"t\",\"content\":\"c\"},\
         {\"id\":\"00000000-0000-0000-0000-000000000001\",\"title\":\"t\",\"content\":\"c\"}]}"
    );
    let page3 = get_tasks(&store, &opts(Some(2), Some(3)));
    assert_eq!(page3.body, "{\"status\":\"ok\",\"tasks\":[]}");
}

#[test]
fn list_with_page_zero_is_store_error() {
    let mut store = TaskStore::new();
    let r = create(&mut store, "t", "c", 1);
    assert_eq!(r.status, 200);
    let r = get_tasks(&store, &opts(Some(10), Some(0)));
    assert_eq!(r.status, 500);
    assert_eq!(
        r.body,
        "{\"status\":\"error\",\"message\":\"limit and offset must not be negative\"}"
    );
    let r = get_tasks(&store, &opts(Some(-1), Some(1)));
    assert_eq!(r.status, 500);
}

#[test]
fn get_after_create_returns_same_fields() {
    let mut store = TaskStore::new();
    let created = create(&mut store, "a", "b", 5);
    assert_eq!(created.status, 200);
    let fetched = get_task(&store, 5);
    assert_eq!(fetched.status, 200);
    assert_eq!(
        fetched.body,
        "{\"status\":\"ok\",\"task\":{\"id\":\"00000000-0000-0000-0000-000000000005\",\"title\":\"a\",\"content\":\"b\"}}"
    );
}

#[test]
fn get_missing_id_is_error_not_empty() {
    let mut store = TaskStore::new();
    let r = create(&mut store, "a", "b", 1);
    assert_eq!(r.status, 200);
    let r = get_task(&store, 2);
    assert_eq!(r.status, 500);
    assert_eq!(
        r.body,
        "{\"status\":\"error\",\"message\":\"no rows returned by a query that expected to return at least one row\"}"
    );
}

#[test]
fn get_twice_returns_identical_data() {
    let mut store = TaskStore::new();
    let r = create(&mut store, "a", "b", 9);
    assert_eq!(r.status, 200);
    let first = get_task(&store, 9);
    let second = get_task(&store, 9);
    assert_eq!(first.status, second.status);
    assert_eq!(first.body, second.body);
}

#[test]
fn update_replaces_only_targeted_row() {
    let mut store = TaskStore::new();
    assert_eq!(create(&mut store, "a1", "b1", 1).status, 200);
    assert_eq!(create(&mut store, "a2", "b2", 2).status, 200);
    let r = update_task(
        &mut store,
        1,
        UpdateTaskSchema { title: Some("new".to_string()), content: Some("text".to_string()) },
    );
    assert_eq!(r.status, 200);
    assert_eq!(
        r.body,
        "{\"status\":\"ok\",\"task\":{\"id\":\"00000000-0000-0000-0000-000000000001\",\"title\":\"new\",\"content\":\"text\"}}"
    );
    let other = get_task(&store, 2);
    assert_eq!(
        other.body,
        "{\"status\":\"ok\",\"task\":{\"id\":\"00000000-0000-0000-0000-000000000002\",\"title\":\"a2\",\"content\":\"b2\"}}"
    );
}

#[test]
fn update_missing_id_is_error() {
    let mut store = TaskStore::new();
    let r = update_task(
        &mut store,
        42,
        UpdateTaskSchema { title: Some("t".to_string()), content: Some("c".to_string()) },
    );
    assert_eq!(r.status, 500);
    assert_eq!(
        r.body,
        "{\"status\":\"error\",\"message\":\"no rows returned by a query that expected to return at least one row\"}"
    );
}

#[test]
fn update_with_absent_field_is_error() {
    let mut store = TaskStore::new();
    assert_eq!(create(&mut store, "a", "b", 1).status, 200);
    let r = update_task(
        &mut store,
        1,
        UpdateTaskSchema { title: None, content: Some("c".to_string()) },
    );
    assert_eq!(r.status, 500);
    assert_eq!(
        r.body,
        "{\"status\":\"error\",\"message\":\"null value in column violates not-null constraint\"}"
    );
    let unchanged = get_task(&store, 1);
    assert!(unchanged.body.contains("\"title\":\"a\""));
}

#[test]
fn store_calls_report_their_error_kinds() {
    let mut store = TaskStore::new();
    assert!(matches!(store.insert(1, "t".to_string(), "c".to_string()), Ok(TaskModel { .. })));
    assert!(matches!(
        store.insert(1, "t".to_string(), "c".to_string()),
        Err(StoreError::UniqueViolation)
    ));
    assert!(matches!(store.get(2), Err(StoreError::RowNotFound)));
    assert!(matches!(store.select_page(-1, 0), Err(StoreError::InvalidArgument)));
    assert!(matches!(store.select_page(10, -1), Err(StoreError::InvalidArgument)));
    assert!(matches!(store.update(1, None, None), Err(StoreError::NotNullViolation)));
    assert!(matches!(
        store.update(9, Some("x".to_string()), Some("y".to_string())),
        Err(StoreError::RowNotFound)
    ));
}

#[test]
fn full_flow_create_get_update_list() {
    let mut store = TaskStore::new();
    let id: u128 = 11;
    let id_text = uuid_string(id);

    let created = create(&mut store, "a", "b", id);
    assert_eq!(created.status, 200);
    assert!(created.body.contains("\"task\":{\"task\":{\"id\":\""));
    assert!(created.body.contains(&id_text));
    assert!(created.body.contains("\"title\":\"a\""));

    let fetched = get_task(&store, id);
    assert_eq!(fetched.status, 200);
    assert!(fetched.body.contains("\"title\":\"a\""));

    let updated = update_task(
        &mut store,
        id,
        UpdateTaskSchema { title: Some("c".to_string()), content: Some("b".to_string()) },
    );
    assert_eq!(updated.status, 200);
    assert!(updated.body.contains("\"title\":\"c\""));

    let listed = get_tasks(&store, &opts(Some(1), Some(1)));
    assert_eq!(listed.status, 200);
    let first_listed = format!("{{\"status\":\"ok\",\"tasks\":[{{\"id\":\"{}\"", id_text);
    assert!(listed.body.starts_with(&first_listed));
}
