use vstd::prelude::*;
use crate::model::{lemma_ops_preserve_wf, lemma_position_bounds, position_of, RepoView};
use crate::todo::{patched, CreateTodo, RepositoryError, Todo, UpdateTodo};

verus! {

/// A store of todo records keyed by an integer id. Readers take `&self`,
/// writers `&mut self`, so every write is exclusive of every other access.
pub trait TodoRepository: Sized {
    /// The abstract state of the store.
    spec fn model(&self) -> RepoView;

    /// Stores `{id: last issued id + 1, text, completed: false}` and returns it.
    fn create(&mut self, payload: CreateTodo) -> (r: Todo)
        requires
            old(self).model().wf(),
            old(self).model().can_create(),
        ensures
            final(self).model().wf(),
            r@ == old(self).model().next_record(payload.text@),
            final(self).model() == old(self).model().created(payload.text@),
    ;

    /// The record with `id`, or `None`.
    fn find(&self, id: i32) -> (r: Option<Todo>)
        requires
            self.model().wf(),
        ensures
            match r {
                Some(t) => self.model().find(id) == Some(t@),
                None => self.model().find(id) is None,
            },
    ;

    /// Every record, in insertion order (which is ascending id order).
    fn all(&self) -> (r: Vec<Todo>)
        requires
            self.model().wf(),
        ensures
            r@.map_values(|t: Todo| t@) == self.model().records,
    ;

    /// Patches the record with `id` and returns it, or fails with `NotFound(id)`
    /// leaving the store as it was.
    fn update(&mut self, id: i32, payload: UpdateTodo) -> (r: Result<Todo, RepositoryError>)
        requires
            old(self).model().wf(),
        ensures
            final(self).model().wf(),
            final(self).model() == old(self).model().updated(id, payload),
            match r {
                Ok(t) => old(self).model().find(id) is Some && t@ == patched(
                    old(self).model().find(id)->0,
                    payload,
                ),
                Err(e) => old(self).model().find(id) is None && e == RepositoryError::NotFound(id),
            },
    ;

    /// Removes the record with `id`, or fails with `NotFound(id)` leaving the
    /// store as it was.
    fn delete(&mut self, id: i32) -> (r: Result<(), RepositoryError>)
        requires
            old(self).model().wf(),
        ensures
            final(self).model().wf(),
            final(self).model() == old(self).model().deleted(id),
            r is Ok <==> old(self).model().contains(id),
            r is Err ==> r == Err::<(), RepositoryError>(RepositoryError::NotFound(id)),
    ;
}

/// The in-memory store: records kept in insertion order, plus the largest id
/// ever issued, so that ids are never reused after a deletion.
#[derive(Debug)]
pub struct TodoRepositoryForMemory {
    store: Vec<Todo>,
    last_id: i32,
}

impl View for TodoRepositoryForMemory {
    type V = RepoView;

    closed spec fn view(&self) -> RepoView {
        RepoView { records: self.store@.map_values(|t: Todo| t@), last_id: self.last_id as int }
    }
}

impl TodoRepositoryForMemory {
    /// An empty store.
    pub fn new() -> (r: Self)
        ensures
            r@ == RepoView::empty(),
            r@.wf(),
    {
        let r = TodoRepositoryForMemory { store: Vec::new(), last_id: 0 };
        assert(r@.records =~= RepoView::empty().records);
        r
    }

    /// Whether another id can still be issued by `create`.
    pub fn can_create(&self) -> (r: bool)
        ensures
            r == self@.can_create(),
    {
        self.last_id < i32::MAX
    }

    fn position(&self, id: i32) -> (r: Option<usize>)
        ensures
            match r {
                Some(i) => i as int == position_of(self@.records, id),
                None => position_of(self@.records, id) == -1,
            },
    {
        let ghost recs = self@.records;
        let mut i: usize = self.store.len();
        assert(recs.take(i as int) =~= recs);
        while i > 0
            invariant
                i <= self.store.len(),
                recs == self@.records,
                position_of(recs.take(i as int), id) == position_of(recs, id),
            decreases i,
        {
            assert(recs.take(i as int).drop_last() =~= recs.take(i - 1));
            if self.store[i - 1].id == id {
                return Some(i - 1);
            }
            i = i - 1;
        }
        None
    }
}

impl TodoRepository for TodoRepositoryForMemory {
    open spec fn model(&self) -> RepoView {
        self@
    }

    fn create(&mut self, payload: CreateTodo) -> (r: Todo) {
        proof {
            lemma_ops_preserve_wf(self@, payload.text@, 0, UpdateTodo { text: None, completed: None });
        }
        let id = self.last_id + 1;
        self.last_id = id;
        let t = Todo::new(id, payload.text);
        self.store.push(t.duplicate());
        assert(self@.records =~= old(self)@.created(t.text@).records);
        t
    }

    fn find(&self, id: i32) -> (r: Option<Todo>) {
        proof {
            lemma_position_bounds(self@.records, id);
        }
        match self.position(id) {
            Some(i) => Some(self.store[i].duplicate()),
            None => None,
        }
    }

    fn all(&self) -> (r: Vec<Todo>) {
        let mut out: Vec<Todo> = Vec::new();
        let mut i: usize = 0;
        while i < self.store.len()
            invariant
                i <= self.store.len(),
                out@.len() == i,
                forall|k: int| 0 <= k < i ==> (#[trigger] out@[k])@ == self.store@[k]@,
            decreases self.store.len() - i,
        {
            out.push(self.store[i].duplicate());
            i = i + 1;
        }
        assert(out@.map_values(|t: Todo| t@) =~= self@.records);
        out
    }

    fn update(&mut self, id: i32, payload: UpdateTodo) -> (r: Result<Todo, RepositoryError>) {
        proof {
            lemma_ops_preserve_wf(self@, Seq::empty(), id, payload);
            lemma_position_bounds(self@.records, id);
        }
        match self.position(id) {
            Some(i) => {
                let mut t = self.store[i].duplicate();
                t.apply(payload);
                self.store.set(i, t.duplicate());
                assert(self@.records =~= old(self)@.updated(id, payload).records);
                Ok(t)
            },
            None => Err(RepositoryError::NotFound(id)),
        }
    }

    fn delete(&mut self, id: i32) -> (r: Result<(), RepositoryError>) {
        proof {
            lemma_ops_preserve_wf(self@, Seq::empty(), id, UpdateTodo { text: None, completed: None });
            lemma_position_bounds(self@.records, id);
        }
        match self.position(id) {
            Some(i) => {
                self.store.remove(i);
                assert(self@.records =~= old(self)@.deleted(id).records);
                Ok(())
            },
            None => Err(RepositoryError::NotFound(id)),
        }
    }
}

} // verus!
