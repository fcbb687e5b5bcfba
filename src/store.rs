//! An in-memory store with the semantics of the relational one: lists and
//! items with server-assigned identifiers that are never reused, items that
//! always belong to an existing list, and a done flag that only goes up.
use crate::errors::{AppError, ErrorKind};
use crate::models::{Item, TodoList};
use vstd::prelude::*;

verus! {

/// The contents of a store: its rows in insertion order and the next
/// identifiers it will hand out.
pub struct StoreModel {
    pub lists: Seq<TodoList>,
    pub items: Seq<Item>,
    pub next_list: int,
    pub next_item: int,
}

/// Whether `it` is the item `item_id` of the list `list_id`.
pub open spec fn addresses(it: Item, list_id: i32, item_id: i32) -> bool {
    it.list_id == list_id && it.id == item_id
}

/// `it` with its done flag set where it is the addressed item.
pub open spec fn marked(it: Item, list_id: i32, item_id: i32) -> Item {
    if addresses(it, list_id, item_id) {
        Item { id: it.id, list_id: it.list_id, title: it.title, done: true }
    } else {
        it
    }
}

impl StoreModel {
    pub open spec fn has_list(self, list_id: i32) -> bool {
        exists|a: int| 0 <= a < self.lists.len() && #[trigger] self.lists[a].id == list_id
    }

    pub open spec fn has_item(self, list_id: i32, item_id: i32) -> bool {
        exists|k: int| 0 <= k < self.items.len() && addresses(#[trigger] self.items[k], list_id, item_id)
    }

    /// Identifiers are positive, below the next one, and increase with
    /// insertion; every item belongs to a list that exists.
    pub open spec fn wf(self) -> bool {
        &&& 1 <= self.next_list <= i32::MAX
        &&& 1 <= self.next_item <= i32::MAX
        &&& forall|a: int|
            0 <= a < self.lists.len() ==> 1 <= #[trigger] self.lists[a].id < self.next_list
        &&& forall|a: int, b: int|
            0 <= a < b < self.lists.len() ==> #[trigger] self.lists[a].id < #[trigger] self.lists[b].id
        &&& forall|k: int|
            0 <= k < self.items.len() ==> 1 <= #[trigger] self.items[k].id < self.next_item
        &&& forall|k: int, l: int|
            0 <= k < l < self.items.len() ==> #[trigger] self.items[k].id < #[trigger] self.items[l].id
        &&& forall|k: int| 0 <= k < self.items.len() ==> self.has_list(#[trigger] self.items[k].list_id)
    }

    /// All lists, in insertion order.
    pub open spec fn todos(self) -> Seq<TodoList> {
        self.lists
    }

    /// The items of one list, in insertion order.
    pub open spec fn items_of(self, list_id: i32) -> Seq<Item> {
        self.items.filter(|it: Item| it.list_id == list_id)
    }

    /// Whether a list can still be given an identifier.
    pub open spec fn can_create(self) -> bool {
        self.next_list < i32::MAX
    }

    /// The list that creating one with `title` adds.
    pub open spec fn created(self, title: String) -> TodoList {
        TodoList { id: self.next_list as i32, title }
    }

    pub open spec fn create(self, title: String) -> StoreModel {
        StoreModel {
            lists: self.lists.push(self.created(title)),
            next_list: self.next_list + 1,
            ..self
        }
    }

    /// Whether an item can be added to `list_id`.
    pub open spec fn can_add(self, list_id: i32) -> bool {
        self.has_list(list_id) && self.next_item < i32::MAX
    }

    /// The item that adding one to `list_id` with `title` adds.
    pub open spec fn added(self, list_id: i32, title: String) -> Item {
        Item { id: self.next_item as i32, list_id, title, done: false }
    }

    pub open spec fn add(self, list_id: i32, title: String) -> StoreModel {
        StoreModel {
            items: self.items.push(self.added(list_id, title)),
            next_item: self.next_item + 1,
            ..self
        }
    }

    /// The store after marking the addressed item done.
    pub open spec fn check(self, list_id: i32, item_id: i32) -> StoreModel {
        StoreModel { items: self.items.map_values(|it: Item| marked(it, list_id, item_id)), ..self }
    }
}

/// Whether an update that changed `count` rows marked the addressed item:
/// identifiers are unique, so exactly one row is touched when it exists.
pub fn one_row_changed(count: u64) -> (r: bool)
    ensures
        r == (count == 1),
{
    count == 1
}

/// A store held in memory.
pub struct MemStore {
    lists: Vec<TodoList>,
    items: Vec<Item>,
    next_list_id: i32,
    next_item_id: i32,
}

impl View for MemStore {
    type V = StoreModel;

    closed spec fn view(&self) -> StoreModel {
        StoreModel {
            lists: self.lists@,
            items: self.items@,
            next_list: self.next_list_id as int,
            next_item: self.next_item_id as int,
        }
    }
}

impl MemStore {
    /// An empty store whose first identifiers are 1.
    pub fn new() -> (r: MemStore)
        ensures
            r@.wf(),
            r@.lists.len() == 0,
            r@.items.len() == 0,
            r@.next_list == 1,
            r@.next_item == 1,
    {
        MemStore { lists: Vec::new(), items: Vec::new(), next_list_id: 1, next_item_id: 1 }
    }

    /// Every list, in insertion order, which is identifier order.
    pub fn get_todos(&self) -> (r: Vec<TodoList>)
        ensures
            r@ == self@.todos(),
    {
        let mut r: Vec<TodoList> = Vec::new();
        let mut i: usize = 0;
        while i < self.lists.len()
            invariant
                i <= self.lists@.len(),
                r@ == self.lists@.take(i as int),
            decreases self.lists@.len() - i,
        {
            r.push(self.lists[i].duplicate());
            i = i + 1;
            proof {
                assert(r@ =~= self.lists@.take(i as int));
            }
        }
        proof {
            assert(self.lists@.take(i as int) =~= self.lists@);
        }
        r
    }

    /// The items whose list is `list_id`; empty where that list has none or
    /// does not exist.
    pub fn get_items(&self, list_id: i32) -> (r: Vec<Item>)
        ensures
            r@ == self@.items_of(list_id),
    {
        let ghost pred = |it: Item| it.list_id == list_id;
        let mut r: Vec<Item> = Vec::new();
        let mut i: usize = 0;
        while i < self.items.len()
            invariant
                i <= self.items@.len(),
                pred == (|it: Item| it.list_id == list_id),
                r@ == self.items@.take(i as int).filter(pred),
            decreases self.items@.len() - i,
        {
            proof {
                let t = self.items@.take(i as int + 1);
                assert(t.drop_last() =~= self.items@.take(i as int));
                assert(t.last() == self.items@[i as int]);
                reveal(Seq::filter);
            }
            if self.items[i].list_id == list_id {
                r.push(self.items[i].duplicate());
            }
            i = i + 1;
        }
        proof {
            assert(self.items@.take(i as int) =~= self.items@);
        }
        r
    }

    /// Adds a list titled `title` under the next identifier. Fails with a
    /// store error, changing nothing, once identifiers are exhausted.
    pub fn create_todo(&mut self, title: String) -> (r: Result<TodoList, AppError>)
        requires
            old(self)@.wf(),
        ensures
            final(self)@.wf(),
            match r {
                Ok(t) => old(self)@.can_create() && t == old(self)@.created(title)
                    && final(self)@ == old(self)@.create(title),
                Err(e) => !old(self)@.can_create() && e.kind == ErrorKind::DbError
                    && final(self)@ == old(self)@,
            },
    {
        if self.next_list_id == i32::MAX {
            return Err(AppError::db_error("list identifiers are exhausted".to_owned()));
        }
        let t = TodoList { id: self.next_list_id, title };
        self.lists.push(t.duplicate());
        self.next_list_id = self.next_list_id + 1;
        proof {
            let m = old(self)@;
            assert(self@.lists =~= m.create(title).lists);
            assert forall|k: int| 0 <= k < self@.items.len() implies self@.has_list(
                #[trigger] self@.items[k].list_id,
            ) by {
                let a = choose|a: int| 0 <= a < m.lists.len() && #[trigger] m.lists[a].id == m.items[k].list_id;
                assert(self@.lists[a] == m.lists[a]);
            }
        }
        Ok(t)
    }

    /// Adds an item titled `title`, not done, to the list `list_id`. Fails
    /// with a store error, changing nothing, where that list does not exist
    /// or identifiers are exhausted.
    pub fn add_item(&mut self, list_id: i32, title: String) -> (r: Result<Item, AppError>)
        requires
            old(self)@.wf(),
        ensures
            final(self)@.wf(),
            match r {
                Ok(it) => old(self)@.can_add(list_id) && it == old(self)@.added(list_id, title)
                    && final(self)@ == old(self)@.add(list_id, title),
                Err(e) => !old(self)@.can_add(list_id) && e.kind == ErrorKind::DbError
                    && final(self)@ == old(self)@,
            },
    {
        if self.next_item_id == i32::MAX {
            return Err(AppError::db_error("item identifiers are exhausted".to_owned()));
        }
        let mut found = false;
        let mut a: usize = 0;
        while a < self.lists.len()
            invariant
                a <= self.lists@.len(),
                found == exists|b: int| 0 <= b < a && #[trigger] self.lists@[b].id == list_id,
            decreases self.lists@.len() - a,
        {
            if self.lists[a].id == list_id {
                found = true;
            }
            a = a + 1;
        }
        if !found {
            return Err(AppError::db_error("no such list".to_owned()));
        }
        let it = Item { id: self.next_item_id, list_id, title, done: false };
        self.items.push(it.duplicate());
        self.next_item_id = self.next_item_id + 1;
        proof {
            let m = old(self)@;
            assert(self@.items =~= m.add(list_id, title).items);
            assert(self@.items[self@.items.len() - 1] == it);
            assert(m.has_list(list_id));
            assert forall|k: int| 0 <= k < self@.items.len() implies self@.has_list(
                #[trigger] self@.items[k].list_id,
            ) by {
                let id = self@.items[k].list_id;
                if k < m.items.len() {
                    assert(self@.items[k] == m.items[k]);
                    assert(m.has_list(m.items[k].list_id));
                } else {
                    assert(id == list_id);
                }
                assert(m.has_list(id));
                let a = choose|a: int| 0 <= a < m.lists.len() && #[trigger] m.lists[a].id == id;
                assert(self@.lists[a].id == id);
            }
        }
        Ok(it)
    }

    /// Marks the item `item_id` of the list `list_id` done. Tells whether
    /// such an item exists; where none does, nothing changes. Marking an
    /// item that is already done leaves it done.
    pub fn check_todo(&mut self, list_id: i32, item_id: i32) -> (r: bool)
        requires
            old(self)@.wf(),
        ensures
            final(self)@.wf(),
            r == old(self)@.has_item(list_id, item_id),
            final(self)@ == old(self)@.check(list_id, item_id),
    {
        let ghost m = old(self)@;
        let mut found = false;
        let mut i: usize = 0;
        while i < self.items.len()
            invariant
                i <= self.items@.len(),
                self.items@.len() == m.items.len(),
                self.lists@ == m.lists,
                self.next_list_id as int == m.next_list,
                self.next_item_id as int == m.next_item,
                forall|k: int| 0 <= k < i ==> #[trigger] self.items@[k] == marked(m.items[k], list_id, item_id),
                forall|k: int| i <= k < self.items@.len() ==> #[trigger] self.items@[k] == m.items[k],
                found == exists|k: int| 0 <= k < i && addresses(#[trigger] m.items[k], list_id, item_id),
            decreases self.items@.len() - i,
        {
            if self.items[i].list_id == list_id && self.items[i].id == item_id {
                let it = Item {
                    id: self.items[i].id,
                    list_id: self.items[i].list_id,
                    title: self.items[i].title.clone(),
                    done: true,
                };
                self.items.set(i, it);
                found = true;
            }
            i = i + 1;
        }
        proof {
            let c = m.check(list_id, item_id);
            assert(self@.items =~= c.items);
            assert forall|k: int| 0 <= k < c.items.len() implies #[trigger] c.items[k].id == m.items[k].id
                && c.items[k].list_id == m.items[k].list_id by {}
            assert forall|k: int, l: int| 0 <= k < l < c.items.len() implies #[trigger] c.items[k].id
                < #[trigger] c.items[l].id by {
                assert(c.items[k].id == m.items[k].id);
                assert(c.items[l].id == m.items[l].id);
            }
            assert forall|k: int| 0 <= k < c.items.len() implies c.has_list(#[trigger] c.items[k].list_id) by {
                assert(c.items[k].list_id == m.items[k].list_id);
                assert(m.has_list(m.items[k].list_id));
                let a = choose|a: int| 0 <= a < m.lists.len() && #[trigger] m.lists[a].id == m.items[k].list_id;
                assert(c.lists[a].id == c.items[k].list_id);
            }
        }
        found
    }
}

/// After a list is created with `title`, listing all lists shows a list
/// with that title, under an identifier that no list held before.
pub proof fn law_created_list_is_listed(m: StoreModel, title: String)
    requires
        m.wf(),
        m.can_create(),
    ensures
        m.create(title).todos().contains(m.created(title)),
        m.created(title).title == title,
        forall|a: int| 0 <= a < m.todos().len() ==> #[trigger] m.todos()[a].id != m.created(title).id,
        m.create(title).wf(),
{
    let n = m.create(title);
    assert(n.lists[m.lists.len() as int] == m.created(title));
    assert forall|k: int| 0 <= k < n.items.len() implies n.has_list(#[trigger] n.items[k].list_id) by {
        let a = choose|a: int| 0 <= a < m.lists.len() && #[trigger] m.lists[a].id == m.items[k].list_id;
        assert(n.lists[a] == m.lists[a]);
    }
}

/// A list that does not exist has no items: listing them gives an empty
/// sequence, not a failure.
pub proof fn law_missing_list_has_no_items(m: StoreModel, list_id: i32)
    requires
        m.wf(),
        !m.has_list(list_id),
    ensures
        m.items_of(list_id) == Seq::<Item>::empty(),
{
    let pred = |it: Item| it.list_id == list_id;
    m.items.lemma_filter_len(pred);
    if m.items_of(list_id).len() > 0 {
        m.items.lemma_filter_contains_rev(pred, m.items_of(list_id)[0]);
        assert(m.items.filter(pred).contains(m.items_of(list_id)[0]));
        m.items.lemma_filter_pred(pred, 0);
        let k = choose|k: int| 0 <= k < m.items.len() && m.items[k] == m.items_of(list_id)[0];
        assert(m.has_list(m.items[k].list_id));
    }
    assert(m.items_of(list_id) =~= Seq::<Item>::empty());
}

/// Marking an existing item done twice reports success both times, and the
/// second time changes nothing: the item stays done.
pub proof fn law_check_is_idempotent(m: StoreModel, list_id: i32, item_id: i32)
    requires
        m.wf(),
        m.has_item(list_id, item_id),
    ensures
        m.check(list_id, item_id).has_item(list_id, item_id),
        m.check(list_id, item_id).check(list_id, item_id) == m.check(list_id, item_id),
        forall|k: int|
            0 <= k < m.items.len() && addresses(m.items[k], list_id, item_id)
                ==> (#[trigger] m.check(list_id, item_id).items[k]).done,
{
    let c = m.check(list_id, item_id);
    let k = choose|k: int| 0 <= k < m.items.len() && addresses(#[trigger] m.items[k], list_id, item_id);
    assert(addresses(c.items[k], list_id, item_id));
    assert(c.check(list_id, item_id).items =~= c.items);
}

/// Marking an item that does not exist reports failure and changes nothing.
pub proof fn law_check_missing_changes_nothing(m: StoreModel, list_id: i32, item_id: i32)
    requires
        !m.has_item(list_id, item_id),
    ensures
        m.check(list_id, item_id) == m,
{
    assert forall|k: int| 0 <= k < m.items.len() implies #[trigger] marked(m.items[k], list_id, item_id)
        == m.items[k] by {
        if addresses(m.items[k], list_id, item_id) {
            assert(m.has_item(list_id, item_id));
        }
    }
    assert(m.check(list_id, item_id).items =~= m.items);
}

} // verus!
