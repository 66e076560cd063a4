//! The record store: an in-memory collection of todos keyed by
//! identifier, with insertion order kept. It assigns identifiers, keeps
//! them pairwise distinct, and rejects records that break the validity
//! rules, so that the matcher only ever sees well-formed snapshots.

use vstd::prelude::*;

use crate::matcher::lemma_nearby_distinct_ids;
use crate::matcher::spec_nearby;
use crate::matcher::views_of;
use crate::model::todo_is_valid;
use crate::model::CreateTodo;
use crate::model::Todo;
use crate::model::TodoView;

verus! {

/// Why a store operation was refused.
#[derive(Clone, Copy, Debug, PartialEq, Eq, Structural)]
pub enum StoreError {
    /// No record carries the requested identifier.
    NotFound,
    /// The record breaks a validity rule: a trigger zone with an
    /// out-of-range centre or a zero radius, or a completion percentage
    /// over 100.
    InvalidTodo,
}

/// Some record of the sequence carries the identifier.
pub open spec fn seq_contains_id(rs: Seq<TodoView>, id: u32) -> bool {
    exists|i: int| 0 <= i < rs.len() && (#[trigger] rs[i]).id == id
}

/// The position of the record carrying the identifier.
pub open spec fn seq_index_of_id(rs: Seq<TodoView>, id: u32) -> int {
    choose|i: int| 0 <= i < rs.len() && (#[trigger] rs[i]).id == id
}

/// The store of todo records. Records keep their insertion order;
/// identifiers are assigned from a counter and never reused.
pub struct TodoStore {
    todos: Vec<Todo>,
    next_id: u32,
}

impl TodoStore {
    /// The stored records, in insertion order.
    pub closed spec fn records(self) -> Seq<TodoView> {
        views_of(self.todos@)
    }

    /// The identifier the next created record will get.
    pub closed spec fn spec_next_id(self) -> u32 {
        self.next_id
    }

    /// Well-formedness: identifiers are pairwise distinct and below the
    /// counter, and every stored record is valid.
    pub closed spec fn wf(self) -> bool {
        &&& forall|i: int, j: int|
            0 <= i < j < self.records().len() ==> self.records()[i].id != self.records()[j].id
        &&& forall|i: int|
            0 <= i < self.records().len() ==> (#[trigger] self.records()[i]).id
                < self.next_id
        &&& forall|i: int|
            0 <= i < self.records().len() ==> (#[trigger] self.records()[i]).spec_valid()
    }

    /// Whether some stored record carries the identifier.
    pub open spec fn spec_contains_id(self, id: u32) -> bool {
        seq_contains_id(self.records(), id)
    }

    /// The stored record carrying the identifier.
    pub open spec fn spec_record(self, id: u32) -> TodoView {
        self.records()[seq_index_of_id(self.records(), id)]
    }

    /// An empty store; the first record created will get identifier 1.
    pub fn new() -> (s: Self)
        ensures
            s.wf(),
            s.records() == Seq::<TodoView>::empty(),
            s.spec_next_id() == 1,
    {
        let s = TodoStore { todos: Vec::new(), next_id: 1 };
        proof {
            assert(s.records() =~= Seq::<TodoView>::empty());
        }
        s
    }

    /// Hand out the next free identifier and advance the counter.
    pub fn get_next_id(&mut self) -> (id: u32)
        requires
            old(self).spec_next_id() < u32::MAX,
        ensures
            id == old(self).spec_next_id(),
            final(self).spec_next_id() == id + 1,
            final(self).records() == old(self).records(),
            old(self).wf() ==> final(self).wf(),
    {
        let id = self.next_id;
        self.next_id = self.next_id + 1;
        id
    }

    /// The identifier the next created record would get, without
    /// advancing the counter.
    pub fn peek_next_id(&self) -> (id: u32)
        ensures
            id == self.spec_next_id(),
    {
        self.next_id
    }

    /// The position of the record carrying the identifier, if any.
    fn find_index(&self, id: u32) -> (r: Option<usize>)
        ensures
            match r {
                Some(k) => 0 <= k < self.records().len() && self.records()[k as int].id == id,
                None => !self.spec_contains_id(id),
            },
    {
        let mut k: usize = 0;
        while k < self.todos.len()
            invariant
                k <= self.todos@.len(),
                self.records().len() == self.todos@.len(),
                forall|i: int| 0 <= i < k ==> (#[trigger] self.records()[i]).id != id,
                forall|i: int|
                    0 <= i < self.todos@.len() ==> (#[trigger] self.records()[i]) == self.todos@[i]@,
            decreases self.todos@.len() - k,
        {
            if self.todos[k].id == id {
                return Some(k);
            }
            k = k + 1;
        }
        None
    }

    /// Look a record up by identifier; `None` exactly when no record
    /// carries it.
    pub fn get(&self, id: u32) -> (r: Option<Todo>)
        requires
            self.wf(),
        ensures
            match r {
                Some(t) => self.spec_contains_id(id) && t@ == self.spec_record(id),
                None => !self.spec_contains_id(id),
            },
    {
        match self.find_index(id) {
            Some(k) => {
                let t = self.todos[k].clone();
                proof {
                    let w = seq_index_of_id(self.records(), id);
                    assert(self.records()[k as int].id == id);
                    assert(0 <= w < self.records().len() && self.records()[w].id == id);
                    assert(w == k as int);
                }
                Some(t)
            },
            None => None,
        }
    }

    /// A snapshot of every record, in insertion order.
    pub fn all(&self) -> (r: Vec<Todo>)
        ensures
            views_of(r@) == self.records(),
    {
        let mut out: Vec<Todo> = Vec::new();
        let mut k: usize = 0;
        while k < self.todos.len()
            invariant
                k <= self.todos@.len(),
                views_of(out@) =~= self.records().take(k as int),
            decreases self.todos@.len() - k,
        {
            let ghost prev = out@;
            out.push(self.todos[k].clone());
            proof {
                assert(views_of(out@) =~= views_of(prev).push(out@.last()@));
                assert(views_of(out@) =~= self.records().take(k + 1));
            }
            k = k + 1;
        }
        proof {
            assert(self.records().take(self.todos@.len() as int) =~= self.records());
        }
        out
    }

    /// Create a record from the payload: it gets the next free identifier
    /// and starts incomplete. An invalid payload is refused and the store
    /// left unchanged.
    pub fn create(&mut self, payload: CreateTodo) -> (r: Result<Todo, StoreError>)
        requires
            old(self).wf(),
            old(self).spec_next_id() < u32::MAX,
        ensures
            final(self).wf(),
            match r {
                Ok(t) => {
                    &&& payload.spec_valid()
                    &&& t@ == payload.spec_into_todo(old(self).spec_next_id())
                    &&& final(self).records() == old(self).records().push(t@)
                    &&& final(self).spec_next_id() == old(self).spec_next_id() + 1
                },
                Err(e) => {
                    &&& !payload.spec_valid()
                    &&& e == StoreError::InvalidTodo
                    &&& final(self).records() == old(self).records()
                    &&& final(self).spec_next_id() == old(self).spec_next_id()
                },
            },
    {
        if !payload.is_valid() {
            return Err(StoreError::InvalidTodo);
        }
        let ghost oldrecs = self.records();
        let id = self.get_next_id();
        let todo = payload.into_todo(id);
        let result = todo.clone();
        let ghost tv = todo@;
        self.todos.push(todo);
        proof {
            assert(self.records() =~= oldrecs.push(tv));
            assert forall|i: int, j: int|
                0 <= i < j < self.records().len() implies self.records()[i].id
                != self.records()[j].id by {
                if j == self.records().len() - 1 {
                    assert(self.records()[i] == oldrecs[i]);
                }
            }
            assert(tv.spec_valid());
        }
        Ok(result)
    }

    /// Replace the record carrying the identifier with the given one,
    /// which is stored under that same identifier, and return the stored
    /// record. A missing identifier or an invalid record is refused and
    /// the store left unchanged.
    pub fn update(&mut self, id: u32, todo: Todo) -> (r: Result<Todo, StoreError>)
        requires
            old(self).wf(),
        ensures
            final(self).wf(),
            final(self).spec_next_id() == old(self).spec_next_id(),
            match r {
                Ok(t) => {
                    &&& old(self).spec_contains_id(id)
                    &&& todo@.spec_valid()
                    &&& t@ == todo@.with_id(id)
                    &&& final(self).records().len() == old(self).records().len()
                    &&& forall|i: int|
                        0 <= i < old(self).records().len() && (#[trigger] old(
                            self,
                        ).records()[i]).id != id ==> final(self).records()[i] == old(
                            self,
                        ).records()[i]
                    &&& forall|i: int|
                        0 <= i < old(self).records().len() && (#[trigger] old(
                            self,
                        ).records()[i]).id == id ==> final(self).records()[i] == todo@.with_id(id)
                },
                Err(e) => {
                    &&& final(self).records() == old(self).records()
                    &&& match e {
                        StoreError::NotFound => !old(self).spec_contains_id(id),
                        StoreError::InvalidTodo => old(self).spec_contains_id(id)
                            && !todo@.spec_valid(),
                    }
                },
            },
    {
        match self.find_index(id) {
            None => Err(StoreError::NotFound),
            Some(k) => {
                proof {
                    assert(seq_contains_id(self.records(), id));
                }
                if !todo_is_valid(&todo) {
                    return Err(StoreError::InvalidTodo);
                }
                let mut stored = todo;
                stored.id = id;
                let result = stored.clone();
                let ghost sv = stored@;
                let ghost oldrecs = self.records();
                self.todos.remove(k);
                self.todos.insert(k, stored);
                proof {
                    assert(self.records() =~= oldrecs.update(k as int, sv));
                    assert forall|i: int, j: int|
                        0 <= i < j < self.records().len() implies self.records()[i].id
                        != self.records()[j].id by {
                        assert(oldrecs[i].id != oldrecs[j].id);
                        assert(sv.id == oldrecs[k as int].id);
                    }
                }
                Ok(result)
            },
        }
    }

    /// Remove the record carrying the identifier; the remaining records
    /// keep their order. Returns whether such a record existed.
    pub fn delete(&mut self, id: u32) -> (r: bool)
        requires
            old(self).wf(),
        ensures
            final(self).wf(),
            final(self).spec_next_id() == old(self).spec_next_id(),
            r == old(self).spec_contains_id(id),
            r ==> final(self).records() == old(self).records().remove(
                seq_index_of_id(old(self).records(), id),
            ),
            !r ==> final(self).records() == old(self).records(),
    {
        match self.find_index(id) {
            None => false,
            Some(k) => {
                proof {
                    assert(seq_contains_id(self.records(), id));
                    let w = seq_index_of_id(self.records(), id);
                    assert(0 <= w < self.records().len() && self.records()[w].id == id);
                    assert(w == k as int);
                }
                let ghost oldrecs = self.records();
                self.todos.remove(k);
                proof {
                    assert(self.records() =~= oldrecs.remove(k as int));
                    assert forall|i: int, j: int|
                        0 <= i < j < self.records().len() implies self.records()[i].id
                        != self.records()[j].id by {
                        let a: int = if i < k { i } else { i + 1 };
                        let b: int = if j < k { j } else { j + 1 };
                        assert(self.records()[i] == oldrecs[a]);
                        assert(self.records()[j] == oldrecs[b]);
                    }
                }
                true
            },
        }
    }
}

/// Law: the matcher never reports a stored record twice. A well-formed
/// store keeps identifiers pairwise distinct, so over any snapshot of its
/// records — whatever distances are measured — the nearby result carries
/// pairwise distinct identifiers too.
pub proof fn lemma_store_nearby_once(s: TodoStore, ds: Seq<Seq<u64>>)
    requires
        s.wf(),
    ensures
        forall|i: int, j: int|
            0 <= i < j < spec_nearby(s.records(), ds).len() ==> spec_nearby(s.records(), ds)[i].id
                != spec_nearby(s.records(), ds)[j].id,
{
    lemma_nearby_distinct_ids(s.records(), ds);
}

} // verus!
