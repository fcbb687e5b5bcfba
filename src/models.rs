//! The records that the service stores and answers with.
use crate::json::{int_text, json_string_of, quote, write_int};
use vstd::prelude::*;

verus! {

/// A named list of items.
pub struct TodoList {
    pub id: i32,
    pub title: String,
}

/// One task of a list, with its completion flag.
pub struct Item {
    pub id: i32,
    pub list_id: i32,
    pub title: String,
    pub done: bool,
}

/// The body of a request that creates a list.
pub struct CreateTodoList {
    pub title: String,
}

/// The answer of the liveness probe.
pub struct Status {
    pub status: String,
}

/// The answer of a mutation: whether it changed a row.
pub struct ResultResponse {
    pub success: bool,
}

/// `true` or `false`, as JSON writes it.
pub open spec fn bool_text(b: bool) -> Seq<char> {
    if b {
        "true"@
    } else {
        "false"@
    }
}

fn write_bool(b: bool) -> (r: String)
    ensures
        r@ == bool_text(b),
{
    proof {
        reveal_strlit("true");
        reveal_strlit("false");
    }
    if b {
        "true".to_owned()
    } else {
        "false".to_owned()
    }
}

impl TodoList {
    /// `{"id":<id>,"title":<title>}`
    pub open spec fn json(&self) -> Seq<char> {
        "{\"id\":"@ + int_text(self.id as int) + ",\"title\":"@ + json_string_of(self.title@)
            + "}"@
    }

    pub fn to_json(&self) -> (r: String)
        ensures
            r@ == self.json(),
    {
        let mut s = "{\"id\":".to_owned();
        s.append(write_int(self.id).as_str());
        s.append(",\"title\":");
        s.append(quote(self.title.as_str()).as_str());
        s.append("}");
        s
    }

    pub fn duplicate(&self) -> (r: TodoList)
        ensures
            r == *self,
    {
        TodoList { id: self.id, title: self.title.clone() }
    }
}

impl Item {
    /// `{"id":<id>,"list_id":<list_id>,"title":<title>,"done":<done>}`
    pub open spec fn json(&self) -> Seq<char> {
        "{\"id\":"@ + int_text(self.id as int) + ",\"list_id\":"@ + int_text(self.list_id as int)
            + ",\"title\":"@ + json_string_of(self.title@) + ",\"done\":"@ + bool_text(self.done)
            + "}"@
    }

    pub fn to_json(&self) -> (r: String)
        ensures
            r@ == self.json(),
    {
        let mut s = "{\"id\":".to_owned();
        s.append(write_int(self.id).as_str());
        s.append(",\"list_id\":");
        s.append(write_int(self.list_id).as_str());
        s.append(",\"title\":");
        s.append(quote(self.title.as_str()).as_str());
        s.append(",\"done\":");
        s.append(write_bool(self.done).as_str());
        s.append("}");
        s
    }

    pub fn duplicate(&self) -> (r: Item)
        ensures
            r == *self,
    {
        Item { id: self.id, list_id: self.list_id, title: self.title.clone(), done: self.done }
    }
}

impl Status {
    /// The value that the liveness probe always reports.
    pub fn ok() -> (r: Status)
        ensures
            r.status@ == "Ok"@,
    {
        Status { status: "Ok".to_owned() }
    }

    /// `{"status":<status>}`
    pub open spec fn json(&self) -> Seq<char> {
        "{\"status\":"@ + json_string_of(self.status@) + "}"@
    }

    pub fn to_json(&self) -> (r: String)
        ensures
            r@ == self.json(),
    {
        let mut s = "{\"status\":".to_owned();
        s.append(quote(self.status.as_str()).as_str());
        s.append("}");
        s
    }
}

impl ResultResponse {
    /// `{"success":<success>}`
    pub open spec fn json(&self) -> Seq<char> {
        "{\"success\":"@ + bool_text(self.success) + "}"@
    }

    pub fn to_json(&self) -> (r: String)
        ensures
            r@ == self.json(),
    {
        let mut s = "{\"success\":".to_owned();
        s.append(write_bool(self.success).as_str());
        s.append("}");
        s
    }
}

} // verus!
