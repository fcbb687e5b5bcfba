//! What each handler answers, for every outcome of the pool and the store.
//!
//! Every handler follows one template: take a client from the pool, run one
//! data-access operation, answer 200 with the JSON of its result, or answer
//! the failure's status and log it under the handler's name. The pool and
//! the store are passed in as the outcomes they produced, so the same
//! decisions serve a relational store and the in-memory one.
use crate::errors::{AppError, ErrorKind, Severity};
use crate::json::{array_of, json_string_of, write_array};
use crate::models::{CreateTodoList, Item, ResultResponse, Status, TodoList};
use crate::route::{route, route_of, Route};
use crate::store::MemStore;
use vstd::prelude::*;

verus! {

/// A status code and a JSON body.
pub struct Response {
    pub status: u16,
    pub body: String,
}

/// A structured event for the server's log.
pub struct LogEvent {
    pub severity: Severity,
    pub handler: String,
    pub cause: String,
    pub message: String,
}

/// The answer to a request, and what to log about it.
pub struct Reply {
    pub response: Response,
    pub log: Option<LogEvent>,
}

/// `r` answers `status` with `body` and logs nothing.
pub open spec fn answers(r: Reply, status: u16, body: Seq<char>) -> bool {
    r.response.status == status && r.response.body@ == body && r.log is None
}

/// `r` answers a failure of `kind` met by `handler`, and logs it.
pub open spec fn fails(r: Reply, handler: Seq<char>, kind: ErrorKind) -> bool {
    &&& r.response.status == kind.status()
    &&& r.response.body@ == kind.json()
    &&& match r.log {
        Some(ev) => ev.severity == kind.severity() && ev.handler@ == handler && ev.message@
            == kind.message(),
        None => false,
    }
}

/// `r` answers the failure `e` met by `handler`, and logs it with its cause.
pub open spec fn fails_with(r: Reply, handler: Seq<char>, e: AppError) -> bool {
    fails(r, handler, e.kind) && match r.log {
        Some(ev) => ev.cause == e.cause,
        None => false,
    }
}

/// The body of the liveness probe: `{"status":"Ok"}`.
pub open spec fn status_json() -> Seq<char> {
    "{\"status\":"@ + json_string_of("Ok"@) + "}"@
}

pub open spec fn todos_json(v: Seq<TodoList>) -> Seq<char> {
    array_of(v.map_values(|t: TodoList| t.json()))
}

pub open spec fn items_json(v: Seq<Item>) -> Seq<char> {
    array_of(v.map_values(|it: Item| it.json()))
}

/// The liveness probe: always 200 `{"status":"Ok"}`, whatever the state of
/// the store.
pub fn status() -> (r: Reply)
    ensures
        answers(r, 200, status_json()),
{
    let body = Status::ok().to_json();
    Reply { response: Response { status: 200, body }, log: None }
}

/// Turns the outcome of taking a client from the pool into the client, or
/// into a failure that reports the pool unavailable.
pub fn get_client<C>(acquired: Result<C, String>) -> (r: Result<C, AppError>)
    ensures
        match acquired {
            Ok(c) => r == Ok::<C, AppError>(c),
            Err(cause) => match r {
                Ok(_) => false,
                Err(e) => e.kind == ErrorKind::PoolUnavailable && e.cause == cause,
            },
        },
{
    match acquired {
        Ok(c) => Ok(c),
        Err(cause) => Err(AppError::pool_unavailable(cause)),
    }
}

/// The log event for a failure met by `handler`: critical where the pool
/// failed, an error otherwise.
pub fn log_error(handler: &str, err: &AppError) -> (r: LogEvent)
    ensures
        r.severity == err.kind.severity(),
        r.handler@ == handler@,
        r.cause == err.cause,
        r.message@ == err.kind.message(),
{
    LogEvent {
        severity: err.severity(),
        handler: handler.to_owned(),
        cause: err.cause.clone(),
        message: err.message().to_owned(),
    }
}

/// Answers a failure met by `handler`, and logs it.
pub fn fail(handler: &str, err: AppError) -> (r: Reply)
    ensures
        fails_with(r, handler@, err),
{
    let event = log_error(handler, &err);
    let body = err.to_json();
    Reply { response: Response { status: err.status_code(), body }, log: Some(event) }
}

/// Answers a request that was refused before any handler ran; nothing is
/// logged.
pub fn reject(err: AppError) -> (r: Reply)
    ensures
        answers(r, err.kind.status(), err.kind.json()),
{
    let body = err.to_json();
    Reply { response: Response { status: err.status_code(), body }, log: None }
}

/// Answers a request that no route takes: 404 with an empty body.
pub fn not_found() -> (r: Reply)
    ensures
        answers(r, 404, Seq::empty()),
{
    Reply { response: Response { status: 404, body: String::new() }, log: None }
}

fn encode_todos(v: &Vec<TodoList>) -> (r: String)
    ensures
        r@ == todos_json(v@),
{
    let mut parts: Vec<String> = Vec::new();
    let mut i: usize = 0;
    while i < v.len()
        invariant
            i <= v@.len(),
            parts@.len() == i,
            forall|k: int| 0 <= k < i ==> (#[trigger] parts@[k])@ == v@[k].json(),
        decreases v@.len() - i,
    {
        parts.push(v[i].to_json());
        i = i + 1;
    }
    proof {
        assert(parts@.map_values(|p: String| p@) =~= v@.map_values(|t: TodoList| t.json()));
    }
    write_array(&parts)
}

fn encode_items(v: &Vec<Item>) -> (r: String)
    ensures
        r@ == items_json(v@),
{
    let mut parts: Vec<String> = Vec::new();
    let mut i: usize = 0;
    while i < v.len()
        invariant
            i <= v@.len(),
            parts@.len() == i,
            forall|k: int| 0 <= k < i ==> (#[trigger] parts@[k])@ == v@[k].json(),
        decreases v@.len() - i,
    {
        parts.push(v[i].to_json());
        i = i + 1;
    }
    proof {
        assert(parts@.map_values(|p: String| p@) =~= v@.map_values(|it: Item| it.json()));
    }
    write_array(&parts)
}

/// Answers a listing of all lists.
pub fn get_todos(result: Result<Vec<TodoList>, AppError>) -> (r: Reply)
    ensures
        match result {
            Ok(v) => answers(r, 200, todos_json(v@)),
            Err(e) => fails_with(r, "get_todos"@, e),
        },
{
    match result {
        Ok(v) => Reply { response: Response { status: 200, body: encode_todos(&v) }, log: None },
        Err(e) => fail("get_todos", e),
    }
}

/// Answers a listing of one list's items.
pub fn get_items(result: Result<Vec<Item>, AppError>) -> (r: Reply)
    ensures
        match result {
            Ok(v) => answers(r, 200, items_json(v@)),
            Err(e) => fails_with(r, "get_items"@, e),
        },
{
    match result {
        Ok(v) => Reply { response: Response { status: 200, body: encode_items(&v) }, log: None },
        Err(e) => fail("get_items", e),
    }
}

/// Answers the creation of a list with the list created.
pub fn create_todo(result: Result<TodoList, AppError>) -> (r: Reply)
    ensures
        match result {
            Ok(t) => answers(r, 200, t.json()),
            Err(e) => fails_with(r, "create_todo"@, e),
        },
{
    match result {
        Ok(t) => Reply { response: Response { status: 200, body: t.to_json() }, log: None },
        Err(e) => fail("create_todo", e),
    }
}

/// Answers the marking of an item with whether a row changed.
pub fn check_item(result: Result<bool, AppError>) -> (r: Reply)
    ensures
        match result {
            Ok(b) => answers(r, 200, ResultResponse { success: b }.json()),
            Err(e) => fails_with(r, "check_item"@, e),
        },
{
    match result {
        Ok(b) => {
            let body = ResultResponse { success: b }.to_json();
            Reply { response: Response { status: 200, body }, log: None }
        },
        Err(e) => fail("check_item", e),
    }
}

/// Serves one request against an in-memory store. `pool_up` tells whether a
/// client could be had; `payload` is the decoded body of a creation, `None`
/// where the body did not decode. A request refused at the edge (unknown
/// route, undecodable parameter or body) never reaches the store.
pub fn handle(
    store: &mut MemStore,
    pool_up: bool,
    method: &str,
    path: &str,
    payload: Option<CreateTodoList>,
) -> (r: Reply)
    requires
        old(store)@.wf(),
    ensures
        final(store)@.wf(),
        match route_of(method@, path@) {
            Route::Status => answers(r, 200, status_json()) && final(store)@ == old(store)@,
            Route::NotFound => answers(r, 404, Seq::empty()) && final(store)@ == old(store)@,
            Route::BadRequest => answers(r, 400, ErrorKind::BadRequest.json()) && final(store)@
                == old(store)@,
            Route::GetTodos => final(store)@ == old(store)@ && if pool_up {
                answers(r, 200, todos_json(old(store)@.todos()))
            } else {
                fails(r, "get_todos"@, ErrorKind::PoolUnavailable)
            },
            Route::GetItems(list_id) => final(store)@ == old(store)@ && if pool_up {
                answers(r, 200, items_json(old(store)@.items_of(list_id)))
            } else {
                fails(r, "get_items"@, ErrorKind::PoolUnavailable)
            },
            Route::CreateTodo => match payload {
                None => answers(r, 400, ErrorKind::BadRequest.json()) && final(store)@ == old(store)@,
                Some(p) => if !pool_up {
                    fails(r, "create_todo"@, ErrorKind::PoolUnavailable) && final(store)@
                        == old(store)@
                } else if old(store)@.can_create() {
                    answers(r, 200, old(store)@.created(p.title).json()) && final(store)@ == old(
                        store,
                    )@.create(p.title)
                } else {
                    fails(r, "create_todo"@, ErrorKind::DbError) && final(store)@ == old(store)@
                },
            },
            Route::CheckItem(list_id, item_id) => if pool_up {
                answers(r, 200, (ResultResponse { success: old(store)@.has_item(list_id, item_id) }).json())
                    && final(store)@ == old(store)@.check(list_id, item_id)
            } else {
                fails(r, "check_item"@, ErrorKind::PoolUnavailable) && final(store)@ == old(store)@
            },
        },
{
    let unavailable: Result<(), String> = Err("no client could be taken from the pool".to_owned());
    let acquired = if pool_up {
        Ok(())
    } else {
        unavailable
    };
    match route(method, path) {
        Route::Status => status(),
        Route::NotFound => not_found(),
        Route::BadRequest => reject(AppError::bad_request("path parameter is not an integer".to_owned())),
        Route::GetTodos => match get_client(acquired) {
            Err(e) => fail("get_todos", e),
            Ok(()) => get_todos(Ok(store.get_todos())),
        },
        Route::GetItems(list_id) => match get_client(acquired) {
            Err(e) => fail("get_items", e),
            Ok(()) => get_items(Ok(store.get_items(list_id))),
        },
        Route::CreateTodo => match payload {
            None => reject(AppError::bad_request("body is not a list to create".to_owned())),
            Some(p) => match get_client(acquired) {
                Err(e) => fail("create_todo", e),
                Ok(()) => create_todo(store.create_todo(p.title)),
            },
        },
        Route::CheckItem(list_id, item_id) => match get_client(acquired) {
            Err(e) => fail("check_item", e),
            Ok(()) => check_item(Ok(store.check_todo(list_id, item_id))),
        },
    }
}

} // verus!
