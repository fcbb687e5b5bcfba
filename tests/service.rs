use todo_service::errors::{AppError, ErrorKind, Severity};
use todo_service::handlers::{
    check_item, create_todo, fail, get_client, get_items, get_todos, handle, log_error, status,
};
use todo_service::json::{write_array, write_int};
use todo_service::models::{CreateTodoList, Item, ResultResponse, TodoList};
use todo_service::route::{parse_int, route, Route};
use todo_service::store::MemStore;

fn payload(title: &str) -> Option<CreateTodoList> {
    Some(CreateTodoList { title: title.to_string() })
}

#[test]
fn scenario_groceries() {
    let mut store = MemStore::new();
    let r = handle(&mut store, true, "POST", "/todos", payload("Groceries"));
    assert_eq!(r.response.status, 200);
    assert_eq!(r.response.body, "{\"id\":1,\"title\":\"Groceries\"}");
    let r = handle(&mut store, true, "GET", "/todos", None);
    assert_eq!(r.response.status, 200);
    assert_eq!(r.response.body, "[{\"id\":1,\"title\":\"Groceries\"}]");
    let r = handle(&mut store, true, "GET", "/todos/1/items", None);
    assert_eq!(r.response.status, 200);
    assert_eq!(r.response.body, "[]");
    let r = handle(&mut store, true, "PUT", "/todos/1/items/99", None);
    assert_eq!(r.response.status, 200);
    assert_eq!(r.response.body, "{\"success\":false}");
}

#[test]
fn trailing_slash_lists_todos() {
    let mut store = MemStore::new();
    handle(&mut store, true, "POST", "/todos/", payload("a"));
    let r = handle(&mut store, true, "GET", "/todos/", None);
    assert_eq!(r.response.body, "[{\"id\":1,\"title\":\"a\"}]");
}

#[test]
fn malformed_body_is_bad_request_and_inserts_nothing() {
    // `{"ttle":"x"}` has no title field, so it decodes to no payload.
    let mut store = MemStore::new();
    let r = handle(&mut store, true, "POST", "/todos", None);
    assert_eq!(r.response.status, 400);
    assert!(r.log.is_none());
    assert_eq!(store.get_todos().len(), 0);
}

#[test]
fn non_integer_path_segment_is_bad_request() {
    let mut store = MemStore::new();
    let r = handle(&mut store, true, "GET", "/todos/abc/items", None);
    assert_eq!(r.response.status, 400);
    assert_eq!(r.response.body, "{\"error\":\"Bad request\"}");
    let r = handle(&mut store, true, "PUT", "/todos/1/items/x2", None);
    assert_eq!(r.response.status, 400);
}

#[test]
fn status_ignores_database_availability() {
    let mut store = MemStore::new();
    for up in [true, false] {
        let r = handle(&mut store, up, "GET", "/", None);
        assert_eq!(r.response.status, 200);
        assert_eq!(r.response.body, "{\"status\":\"Ok\"}");
        assert!(r.log.is_none());
    }
    let r = status();
    assert_eq!(r.response.body, "{\"status\":\"Ok\"}");
}

#[test]
fn pool_failure_is_critical_500() {
    let mut store = MemStore::new();
    let r = handle(&mut store, false, "POST", "/todos", payload("a"));
    assert_eq!(r.response.status, 500);
    assert_eq!(r.response.body, "{\"error\":\"Database unavailable\"}");
    let ev = r.log.expect("a failure is logged");
    assert_eq!(ev.severity, Severity::Critical);
    assert_eq!(ev.handler, "create_todo");
    assert_eq!(store.get_todos().len(), 0);
    let r = handle(&mut store, false, "PUT", "/todos/1/items/1", None);
    assert_eq!(r.response.status, 500);
    assert_eq!(r.log.unwrap().handler, "check_item");
}

#[test]
fn unknown_routes_are_not_found() {
    let mut store = MemStore::new();
    assert_eq!(handle(&mut store, true, "DELETE", "/todos", None).response.status, 404);
    assert_eq!(handle(&mut store, true, "GET", "/nothing", None).response.status, 404);
    assert_eq!(handle(&mut store, true, "GET", "/todos/1/items/", None).response.status, 404);
    assert_eq!(handle(&mut store, true, "POST", "/", None).response.status, 404);
}

#[test]
fn create_then_list_gives_fresh_ids() {
    let mut store = MemStore::new();
    let a = store.create_todo("a".to_string()).ok().unwrap();
    let b = store.create_todo("b".to_string()).ok().unwrap();
    assert_eq!(a.id, 1);
    assert_eq!(b.id, 2);
    let all = store.get_todos();
    assert_eq!(all.len(), 2);
    assert_eq!(all[1].title, "b");
    assert_ne!(all[0].id, all[1].id);
}

#[test]
fn items_of_missing_list_are_empty() {
    let mut store = MemStore::new();
    let l = store.create_todo("l".to_string()).ok().unwrap();
    store.add_item(l.id, "milk".to_string()).ok().unwrap();
    assert_eq!(store.get_items(42).len(), 0);
    assert_eq!(store.get_items(l.id).len(), 1);
}

#[test]
fn item_needs_an_existing_list() {
    let mut store = MemStore::new();
    let e = store.add_item(7, "x".to_string()).err().unwrap();
    assert_eq!(e.kind, ErrorKind::DbError);
}

#[test]
fn check_twice_stays_done() {
    let mut store = MemStore::new();
    let l = store.create_todo("l".to_string()).ok().unwrap();
    let it = store.add_item(l.id, "milk".to_string()).ok().unwrap();
    assert!(!it.done);
    assert!(store.check_todo(l.id, it.id));
    assert!(store.check_todo(l.id, it.id));
    let items = store.get_items(l.id);
    assert!(items[0].done);
    let r = handle(&mut store, true, "GET", "/todos/1/items", None);
    assert_eq!(
        r.response.body,
        "[{\"id\":1,\"list_id\":1,\"title\":\"milk\",\"done\":true}]"
    );
}

#[test]
fn check_missing_changes_nothing() {
    let mut store = MemStore::new();
    let l = store.create_todo("l".to_string()).ok().unwrap();
    let it = store.add_item(l.id, "milk".to_string()).ok().unwrap();
    assert!(!store.check_todo(l.id, it.id + 1));
    assert!(!store.check_todo(l.id + 1, it.id));
    assert!(!store.get_items(l.id)[0].done);
}

#[test]
fn parse_int_follows_std() {
    assert_eq!(parse_int("17"), Some(17));
    assert_eq!(parse_int("+5"), Some(5));
    assert_eq!(parse_int("-2147483648"), Some(i32::MIN));
    assert_eq!(parse_int("2147483647"), Some(i32::MAX));
    assert_eq!(parse_int("2147483648"), None);
    assert_eq!(parse_int("99999999999999999999"), None);
    assert_eq!(parse_int(""), None);
    assert_eq!(parse_int("-"), None);
    assert_eq!(parse_int("abc"), None);
    assert_eq!(parse_int("1a"), None);
    assert_eq!(parse_int("007"), Some(7));
}

#[test]
fn route_decodes_parameters() {
    assert_eq!(route("GET", "/"), Route::Status);
    assert_eq!(route("GET", "/todos"), Route::GetTodos);
    assert_eq!(route("POST", "/todos/"), Route::CreateTodo);
    assert_eq!(route("GET", "/todos/12/items"), Route::GetItems(12));
    assert_eq!(route("PUT", "/todos/3/items/-4"), Route::CheckItem(3, -4));
    assert_eq!(route("GET", "/todos/abc/items"), Route::BadRequest);
    assert_eq!(route("PUT", "/todos/1/items/abc"), Route::BadRequest);
    assert_eq!(route("GET", "/todos/1/items/2"), Route::NotFound);
    assert_eq!(route("GET", "/todos//items"), Route::NotFound);
}

#[test]
fn error_kinds_map_to_statuses() {
    let db = AppError::db_error("boom".to_string());
    let bad = AppError::bad_request("x".to_string());
    let pool = AppError::pool_unavailable("down".to_string());
    assert_eq!(db.status_code(), 500);
    assert_eq!(bad.status_code(), 400);
    assert_eq!(pool.status_code(), 500);
    assert_eq!(db.severity(), Severity::Error);
    assert_eq!(pool.severity(), Severity::Critical);
    assert_eq!(db.to_json(), "{\"error\":\"Error processing the request\"}");
}

#[test]
fn failures_log_cause_but_never_echo_it() {
    let r = fail("get_todos", AppError::db_error("relation missing".to_string()));
    assert_eq!(r.response.status, 500);
    assert!(!r.response.body.contains("relation missing"));
    let ev = r.log.unwrap();
    assert_eq!(ev.cause, "relation missing");
    assert_eq!(ev.severity, Severity::Error);
    assert_eq!(ev.message, "Error processing the request");
    let ev = log_error("get_items", &AppError::pool_unavailable("timeout".to_string()));
    assert_eq!(ev.handler, "get_items");
    assert_eq!(ev.severity, Severity::Critical);
}

#[test]
fn get_client_maps_pool_failure() {
    let ok: Result<u8, String> = Ok(3);
    assert_eq!(get_client(ok).ok(), Some(3));
    let e = get_client::<u8>(Err("no slot".to_string())).err().unwrap();
    assert_eq!(e.kind, ErrorKind::PoolUnavailable);
    assert_eq!(e.cause, "no slot");
}

#[test]
fn handlers_answer_each_outcome() {
    let r = get_todos(Ok(vec![TodoList { id: 2, title: "x".to_string() }]));
    assert_eq!(r.response.body, "[{\"id\":2,\"title\":\"x\"}]");
    let r = get_items(Err(AppError::db_error("e".to_string())));
    assert_eq!(r.response.status, 500);
    assert_eq!(r.log.unwrap().handler, "get_items");
    let r = create_todo(Ok(TodoList { id: -3, title: "t".to_string() }));
    assert_eq!(r.response.body, "{\"id\":-3,\"title\":\"t\"}");
    let r = check_item(Ok(true));
    assert_eq!(r.response.body, "{\"success\":true}");
    let r = check_item(Err(AppError::db_error("e".to_string())));
    assert_eq!(r.log.unwrap().handler, "check_item");
}

#[test]
fn titles_are_escaped() {
    let t = TodoList { id: 1, title: "say \"hi\"\n".to_string() };
    assert_eq!(t.to_json(), "{\"id\":1,\"title\":\"say \\\"hi\\\"\\n\"}");
    let it = Item { id: 5, list_id: 1, title: "a\\b".to_string(), done: false };
    assert_eq!(it.to_json(), "{\"id\":5,\"list_id\":1,\"title\":\"a\\\\b\",\"done\":false}");
}

#[test]
fn numbers_and_arrays() {
    assert_eq!(write_int(0), "0");
    assert_eq!(write_int(-2147483648), "-2147483648");
    assert_eq!(write_int(907), "907");
    assert_eq!(write_array(&vec![]), "[]");
    assert_eq!(write_array(&vec!["1".to_string(), "2".to_string()]), "[1,2]");
    assert_eq!(ResultResponse { success: false }.to_json(), "{\"success\":false}");
}
