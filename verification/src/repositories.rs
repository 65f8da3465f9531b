//! An in-process store for `Todo` records behind a repository interface:
//! create, find by id, list all, partial update, delete.
//!
//! The backing state is a mapping from id to record, held inside a verified
//! reader/writer lock and shared through a reference-counted handle, so any
//! number of cloned repository handles may call into the same store
//! concurrently.

use vstd::prelude::*;

verus! {

use std::collections::HashMap;
use std::sync::Arc;
use vstd::rwlock::{ReadHandle, RwLock, RwLockPredicate, WriteHandle};
use vstd::std_specs::iter::IteratorSpec;

/// A stored record: a unique id assigned by the store, the text of the
/// entry, and a completion flag.
#[derive(Debug, PartialEq, Eq)]
pub struct Todo {
    pub id: i32,
    pub text: String,
    pub completed: bool,
}

impl Clone for Todo {
    /// Cloning a record copies every field unchanged.
    fn clone(&self) -> (res: Self)
        ensures
            res == *self,
    {
        Todo { id: self.id, text: self.text.clone(), completed: self.completed }
    }
}

impl Todo {
    /// A fresh record starts out not completed.
    pub fn new(id: i32, text: String) -> (todo: Self)
        ensures
            todo.id == id,
            todo.text == text,
            todo.completed == false,
    {
        Todo { id, text, completed: false }
    }
}

/// Payload for creating a record: only the text; the store assigns the id
/// and fixes `completed` to `false`.
#[derive(Debug, Clone, PartialEq, Eq)]
pub struct CreateTodo {
    pub text: String,
}

impl CreateTodo {
    pub fn new(text: String) -> (payload: Self)
        ensures
            payload.text == text,
    {
        CreateTodo { text }
    }
}

/// Payload for a partial update: a field left as `None` leaves the
/// corresponding record field unchanged.
#[derive(Debug, Clone, PartialEq, Eq)]
pub struct UpdateTodo {
    pub text: Option<String>,
    pub completed: Option<bool>,
}

/// The one domain error: no record exists under the given id.
#[derive(Debug, Clone, Copy, PartialEq, Eq)]
pub enum RepositoryError {
    NotFound(i32),
}

/// The backing state: one mapping from id to record.
///
/// Viewed as a `Map<i32, Todo>`. Well-formedness ties every record to the
/// key it is filed under.
pub struct TodoDatas {
    todos: HashMap<i32, Todo>,
}

impl View for TodoDatas {
    type V = Map<i32, Todo>;

    closed spec fn view(&self) -> Map<i32, Todo> {
        self.todos@
    }
}

impl TodoDatas {
    /// Every stored record carries the key it is filed under, every id is
    /// positive, and the record count leaves room to assign the next id
    /// within `i32`.
    pub open spec fn wf(&self) -> bool {
        &&& forall|k: i32| self@.contains_key(k) ==> #[trigger] self@[k].id == k
        &&& forall|k: i32| #[trigger] self@.contains_key(k) ==> 1 <= k
        &&& self@.dom().len() <= 0x7fff_ffff
    }

    /// The store starts out empty.
    pub fn new() -> (s: Self)
        ensures
            s.wf(),
            s@ == Map::<i32, Todo>::empty(),
    {
        TodoDatas { todos: HashMap::new() }
    }

    /// The number of records currently stored.
    pub fn len(&self) -> (n: usize)
        ensures
            n == self@.dom().len(),
    {
        self.todos.len()
    }

    /// Insert a fresh record built from the payload, under the id
    /// `(current number of records) + 1`, and return a copy of it.
    pub fn create(&mut self, payload: CreateTodo) -> (todo: Todo)
        requires
            old(self).wf(),
            old(self)@.dom().len() < 0x7fff_ffff,
        ensures
            final(self).wf(),
            todo.id == old(self)@.dom().len() + 1,
            todo.text == payload.text,
            todo.completed == false,
            final(self)@ == old(self)@.insert(todo.id, todo),
    {
        let id = (self.todos.len() + 1) as i32;
        let todo = Todo::new(id, payload.text);
        self.todos.insert(id, todo.clone());
        todo
    }

    /// Return a copy of the record under `id`, or `None` if there is none.
    pub fn find(&self, id: i32) -> (r: Option<Todo>)
        ensures
            r == if self@.contains_key(id) {
                Some(self@[id])
            } else {
                None::<Todo>
            },
    {
        match self.todos.get(&id) {
            Some(todo) => Some(todo.clone()),
            None => None,
        }
    }

    /// Return a copy of every stored record, in no particular order: one
    /// record for each id in the store, no id twice.
    pub fn all(&self) -> (r: Vec<Todo>)
        requires
            self.wf(),
        ensures
            r@.len() == self@.dom().len(),
            forall|i: int|
                0 <= i < r@.len() ==> self@.contains_key(#[trigger] r@[i].id)
                    && self@[r@[i].id] == r@[i],
            forall|k: i32| #[trigger]
                self@.contains_key(k) ==> exists|i: int|
                    0 <= i < r@.len() && r@[i] == self@[k],
            forall|i: int, j: int| 0 <= i < j < r@.len() ==> r@[i].id != r@[j].id,
    {
        proof {
            vstd::std_specs::hash::axiom_spec_hash_map_iter(&self.todos);
        }
        let iter0 = self.todos.iter();
        let ghost v = iter0.remaining();
        let mut it = vstd::std_specs::iter::VerusForLoopWrapper::new(iter0, Ghost(None));
        let mut r: Vec<Todo> = Vec::new();
        loop
            invariant
                it.wf(),
                it.iter.obeys_prophetic_iter_laws(),
                it.iter.decrease() is Some,
                it.seq() == v,
                0 <= it.index() <= v.len(),
                r@.len() == it.index(),
                forall|i: int| 0 <= i < r@.len() ==> r@[i] == *v[i].1,
            ensures
                r@.len() == v.len(),
                forall|i: int| 0 <= i < r@.len() ==> r@[i] == *v[i].1,
            decreases it.iter.decrease()->0,
        {
            match it.next() {
                Some(kv) => {
                    r.push(kv.1.clone());
                },
                None => {
                    break;
                },
            }
        }
        proof {
            assert forall|i: int|
                0 <= i < r@.len() implies self@.contains_key(#[trigger] r@[i].id)
                    && self@[r@[i].id] == r@[i] by {
                assert(self@.contains_key(*v[i].0));
                assert(self@[*v[i].0] == *v[i].1);
            }
            assert forall|k: i32| #[trigger]
                self@.contains_key(k) implies exists|i: int|
                    0 <= i < r@.len() && r@[i] == self@[k] by {
                assert(v.contains((&k, &self@[k])));
                let i = choose|i: int| 0 <= i < v.len() && v[i] == (&k, &self@[k]);
                assert(r@[i] == self@[k]);
            }
            assert forall|i: int, j: int|
                0 <= i < j < r@.len() implies r@[i].id != r@[j].id by {
                if r@[i].id == r@[j].id {
                    assert(self@.contains_key(*v[i].0));
                    assert(self@.contains_key(*v[j].0));
                    assert(v[i] == v[j]);
                    assert(v.no_duplicates());
                }
            }
        }
        r
    }

    /// Merge the payload over the record under `id` and store the result,
    /// or fail with `NotFound` and leave the store unchanged.
    ///
    /// A payload field left as `None` keeps the prior value of that field;
    /// the id is never changed.
    pub fn update(&mut self, id: i32, payload: UpdateTodo) -> (r: Result<
        Todo,
        RepositoryError,
    >)
        requires
            old(self).wf(),
        ensures
            final(self).wf(),
            match r {
                Ok(t) => {
                    &&& old(self)@.contains_key(id)
                    &&& t.id == id
                    &&& t.text == (match payload.text {
                        Some(s) => s,
                        None => old(self)@[id].text,
                    })
                    &&& t.completed == (match payload.completed {
                        Some(b) => b,
                        None => old(self)@[id].completed,
                    })
                    &&& final(self)@ == old(self)@.insert(id, t)
                },
                Err(e) => {
                    &&& !old(self)@.contains_key(id)
                    &&& e == RepositoryError::NotFound(id)
                    &&& final(self)@ == old(self)@
                },
            },
    {
        let current = match self.todos.get(&id) {
            Some(todo) => todo,
            None => {
                return Err(RepositoryError::NotFound(id));
            },
        };
        let text = match payload.text {
            Some(t) => t,
            None => current.text.clone(),
        };
        let completed = match payload.completed {
            Some(c) => c,
            None => current.completed,
        };
        let todo = Todo { id, text, completed };
        self.todos.insert(id, todo.clone());
        Ok(todo)
    }

    /// Remove the record under `id`, or fail with `NotFound` and leave the
    /// store unchanged.
    pub fn delete(&mut self, id: i32) -> (r: Result<(), RepositoryError>)
        requires
            old(self).wf(),
        ensures
            final(self).wf(),
            match r {
                Ok(_) => {
                    &&& old(self)@.contains_key(id)
                    &&& final(self)@ == old(self)@.remove(id)
                },
                Err(e) => {
                    &&& !old(self)@.contains_key(id)
                    &&& e == RepositoryError::NotFound(id)
                    &&& final(self)@ == old(self)@
                },
            },
    {
        match self.todos.remove(&id) {
            Some(_) => Ok(()),
            None => Err(RepositoryError::NotFound(id)),
        }
    }

    /// Replace the record already stored under `id` by a fresh one built
    /// from the payload. Only called when the store holds the full range of
    /// positive ids, so no unused id is left to assign.
    fn replace(&mut self, id: i32, payload: CreateTodo) -> (todo: Todo)
        requires
            old(self).wf(),
            old(self)@.contains_key(id),
            1 <= id,
        ensures
            final(self).wf(),
            todo.id == id,
            todo.text == payload.text,
            todo.completed == false,
            final(self)@ == old(self)@.insert(id, todo),
    {
        let todo = Todo::new(id, payload.text);
        self.todos.insert(id, todo.clone());
        todo
    }
}

/// A finite set of `i32` values that all lie in `[lo, hi]` has at most
/// `hi - lo + 1` elements.
proof fn lemma_bounded_i32_set_len(s: Set<i32>, lo: i32, hi: i32)
    requires
        s.finite(),
        forall|k: i32| #[trigger] s.contains(k) ==> lo <= k <= hi,
    ensures
        s.len() <= if lo <= hi {
            hi - lo + 1
        } else {
            0
        },
    decreases hi - lo + 1,
{
    if lo > hi {
        assert(s =~= Set::<i32>::empty());
    } else if lo == hi {
        let s2 = s.remove(hi);
        assert(s2 =~= Set::<i32>::empty());
        if s.contains(hi) {
            assert(s.len() == s2.len() + 1);
        } else {
            assert(s =~= s2);
        }
    } else {
        let s2 = s.remove(hi);
        assert(forall|k: i32| #[trigger] s2.contains(k) ==> lo <= k <= hi - 1);
        if s.contains(hi) {
            assert(s.len() == s2.len() + 1);
        } else {
            assert(s =~= s2);
        }
        lemma_bounded_i32_set_len(s2, lo, (hi - 1) as i32);
    }
}

/// A finite set of `i32` values inside `[lo, hi]` that misses one value of
/// that interval has at most `hi - lo` elements.
proof fn lemma_missing_id_bounds_len(s: Set<i32>, lo: i32, hi: i32, id: i32)
    requires
        s.finite(),
        forall|k: i32| #[trigger] s.contains(k) ==> lo <= k <= hi,
        lo <= id <= hi,
        !s.contains(id),
    ensures
        s.len() <= hi - lo,
    decreases hi - lo + 1,
{
    if lo == hi {
        assert(s =~= Set::<i32>::empty());
    } else if id == hi {
        assert(forall|k: i32| #[trigger] s.contains(k) ==> lo <= k <= hi - 1);
        lemma_bounded_i32_set_len(s, lo, (hi - 1) as i32);
    } else {
        let s2 = s.remove(hi);
        assert(forall|k: i32| #[trigger] s2.contains(k) ==> lo <= k <= hi - 1);
        if s.contains(hi) {
            assert(s.len() == s2.len() + 1);
        } else {
            assert(s =~= s2);
        }
        lemma_missing_id_bounds_len(s2, lo, (hi - 1) as i32, id);
    }
}

/// The invariant tied to the store's lock: every value the lock can hold is
/// a well-formed mapping.
pub struct StorePred;

impl RwLockPredicate<TodoDatas> for StorePred {
    open spec fn inv(self, s: TodoDatas) -> bool {
        s.wf()
    }
}

/// The capability contract every storage backend provides: create, find by
/// id, list all, partial update, delete. A backend must be clonable into
/// many handles that share one store, and safe to call concurrently.
///
/// Each call promises what holds of its returned values whatever other
/// callers do between two calls; the store behind a handle always stays a
/// well-formed mapping.
pub trait TodoRepository: Sized + Clone + Send + Sync + 'static {
    /// Insert a new record built from the payload and return a copy of it:
    /// the text is the payload's, the record starts not completed, and the
    /// assigned id is positive.
    fn create(&self, payload: CreateTodo) -> (todo: Todo)
        ensures
            1 <= todo.id,
            todo.text == payload.text,
            todo.completed == false,
    ;

    /// Return the record stored under `id`, or `None` if there is none.
    fn find(&self, id: i32) -> (r: Option<Todo>)
        ensures
            r matches Some(t) ==> t.id == id && 1 <= id,
    ;

    /// Return every stored record, each under its own id, no id twice.
    fn all(&self) -> (r: Vec<Todo>)
        ensures
            forall|i: int| 0 <= i < r@.len() ==> 1 <= #[trigger] r@[i].id,
            forall|i: int, j: int| 0 <= i < j < r@.len() ==> r@[i].id != r@[j].id,
    ;

    /// Merge the payload over the record under `id`: a payload field left
    /// as `None` keeps the prior value; the id never changes. Fails with
    /// `NotFound(id)` exactly when no record exists under `id`.
    fn update(&self, id: i32, payload: UpdateTodo) -> (r: Result<Todo, RepositoryError>)
        ensures
            r matches Ok(t) ==> {
                &&& t.id == id
                &&& (payload.text matches Some(s) ==> t.text == s)
                &&& (payload.completed matches Some(b) ==> t.completed == b)
            },
            r matches Err(e) ==> e == RepositoryError::NotFound(id),
    ;

    /// Remove the record under `id`. Fails with `NotFound(id)` exactly
    /// when no record exists under `id`.
    fn delete(&self, id: i32) -> (r: Result<(), RepositoryError>)
        ensures
            r matches Err(e) ==> e == RepositoryError::NotFound(id),
    ;
}

/// The in-memory backend: the mapping lives inside a reader/writer lock,
/// and the lock inside a reference-counted handle, so cloned repository
/// handles all reach the same store.
#[derive(Clone)]
pub struct TodoRepositoryForMemory {
    store: Arc<RwLock<TodoDatas, StorePred>>,
}

impl TodoRepositoryForMemory {
    /// A handle to a fresh, empty store.
    pub fn new() -> Self {
        TodoRepositoryForMemory {
            store: Arc::new(RwLock::new(TodoDatas::new(), Ghost(StorePred))),
        }
    }

    /// Take the lock exclusively: hands out the well-formed mapping it
    /// held, and the handle that stores a mapping back and releases.
    fn write_store_ref<'a>(&'a self) -> (r: (
        TodoDatas,
        WriteHandle<'a, TodoDatas, StorePred>,
    ))
        ensures
            r.0.wf(),
            forall|s: TodoDatas| r.1.rwlock().inv(s) == s.wf(),
    {
        self.store.acquire_write()
    }

    /// Take the lock shared: hands out a read handle onto a well-formed
    /// mapping.
    fn read_store_ref<'a>(&'a self) -> (r: ReadHandle<'a, TodoDatas, StorePred>)
        ensures
            r.view().wf(),
    {
        self.store.acquire_read()
    }
}

impl TodoRepository for TodoRepositoryForMemory {
    fn create(&self, payload: CreateTodo) -> (todo: Todo) {
        let (mut store, handle) = self.write_store_ref();
        let todo = if store.len() < 0x7fff_ffff {
            store.create(payload)
        } else {
            // Every positive id is already in use: a store of 2^31 - 1
            // records whose ids are positive holds each of 1..=i32::MAX
            // once, so the size-derived id assignment has wrapped around.
            // Keep the store well-formed by replacing the record under
            // id 1 instead of inserting under a wrapped id.
            proof {
                if !store@.contains_key(1i32) {
                    lemma_missing_id_bounds_len(store@.dom(), 1i32, 0x7fff_ffffi32, 1i32);
                }
            }
            store.replace(1, payload)
        };
        handle.release_write(store);
        todo
    }

    fn find(&self, id: i32) -> (r: Option<Todo>) {
        let read_handle = self.read_store_ref();
        let r = read_handle.borrow().find(id);
        read_handle.release_read();
        r
    }

    fn all(&self) -> (r: Vec<Todo>) {
        let read_handle = self.read_store_ref();
        let r = read_handle.borrow().all();
        read_handle.release_read();
        r
    }

    fn update(&self, id: i32, payload: UpdateTodo) -> (r: Result<Todo, RepositoryError>) {
        let (mut store, handle) = self.write_store_ref();
        let r = store.update(id, payload);
        handle.release_write(store);
        r
    }

    fn delete(&self, id: i32) -> (r: Result<(), RepositoryError>) {
        let (mut store, handle) = self.write_store_ref();
        let r = store.delete(id);
        handle.release_write(store);
        r
    }
}

} // verus!
