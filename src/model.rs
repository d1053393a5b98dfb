use vstd::prelude::*;
use crate::todo::{patched, TodoView, UpdateTodo};

verus! {

/// Mathematical state of a todo store: its records in insertion order and the
/// largest id it has ever issued (0 before the first creation).
pub struct RepoView {
    pub records: Seq<TodoView>,
    pub last_id: int,
}

/// Ids strictly ascending along the sequence, hence pairwise distinct.
pub open spec fn ids_ascending(recs: Seq<TodoView>) -> bool {
    forall|i: int, j: int| 0 <= i < j < recs.len() ==> recs[i].id < recs[j].id
}

/// Index of the last record carrying `id`, or -1 when none does.
pub open spec fn position_of(recs: Seq<TodoView>, id: i32) -> int
    decreases recs.len(),
{
    if recs.len() == 0 {
        -1
    } else if recs.last().id == id {
        recs.len() - 1
    } else {
        position_of(recs.drop_last(), id)
    }
}

impl RepoView {
    /// The store before anything was created.
    pub open spec fn empty() -> RepoView {
        RepoView { records: Seq::empty(), last_id: 0 }
    }

    /// Ids are positive, unique, ascending in insertion order, and never above
    /// the last issued one.
    pub open spec fn wf(self) -> bool {
        &&& 0 <= self.last_id <= i32::MAX
        &&& ids_ascending(self.records)
        &&& forall|i: int|
            0 <= i < self.records.len() ==> 0 < #[trigger] self.records[i].id <= self.last_id
    }

    /// Another id can still be issued.
    pub open spec fn can_create(self) -> bool {
        self.last_id < i32::MAX
    }

    /// The record that a creation with `text` stores and returns.
    pub open spec fn next_record(self, text: Seq<char>) -> TodoView {
        TodoView { id: (self.last_id + 1) as i32, text, completed: false }
    }

    /// The state after creating a record with `text`.
    pub open spec fn created(self, text: Seq<char>) -> RepoView {
        RepoView { records: self.records.push(self.next_record(text)), last_id: self.last_id + 1 }
    }

    pub open spec fn contains(self, id: i32) -> bool {
        position_of(self.records, id) >= 0
    }

    /// The record with `id`, if any.
    pub open spec fn find(self, id: i32) -> Option<TodoView> {
        if self.contains(id) {
            Some(self.records[position_of(self.records, id)])
        } else {
            None
        }
    }

    /// The state after patching the record with `id`; unchanged if absent.
    pub open spec fn updated(self, id: i32, p: UpdateTodo) -> RepoView {
        let i = position_of(self.records, id);
        if i >= 0 {
            RepoView {
                records: self.records.update(i, patched(self.records[i], p)),
                last_id: self.last_id,
            }
        } else {
            self
        }
    }

    /// The state after removing the record with `id`; unchanged if absent.
    pub open spec fn deleted(self, id: i32) -> RepoView {
        let i = position_of(self.records, id);
        if i >= 0 {
            RepoView { records: self.records.remove(i), last_id: self.last_id }
        } else {
            self
        }
    }
}

pub proof fn lemma_position_bounds(recs: Seq<TodoView>, id: i32)
    ensures
        -1 <= position_of(recs, id) < recs.len(),
        position_of(recs, id) >= 0 ==> recs[position_of(recs, id)].id == id,
        position_of(recs, id) == -1 ==> forall|i: int| 0 <= i < recs.len() ==> recs[i].id != id,
    decreases recs.len(),
{
    if recs.len() > 0 && recs.last().id != id {
        lemma_position_bounds(recs.drop_last(), id);
        assert forall|i: int| 0 <= i < recs.len() && position_of(recs, id) == -1 implies recs[i].id
            != id by {
            if i < recs.len() - 1 {
                assert(recs[i] == recs.drop_last()[i]);
            }
        }
    }
}

/// With unique ids, the record at index `i` is the one found for its id.
pub proof fn lemma_position_exact(recs: Seq<TodoView>, i: int)
    requires
        ids_ascending(recs),
        0 <= i < recs.len(),
    ensures
        position_of(recs, recs[i].id) == i,
{
    lemma_position_bounds(recs, recs[i].id);
    let p = position_of(recs, recs[i].id);
    if p != i {
        assert(p >= 0);
        if p < i {
            assert(recs[p].id < recs[i].id);
        } else {
            assert(recs[i].id < recs[p].id);
        }
    }
}

/// Creating, updating and deleting keep a store well formed.
pub proof fn lemma_ops_preserve_wf(s: RepoView, text: Seq<char>, id: i32, p: UpdateTodo)
    requires
        s.wf(),
    ensures
        s.can_create() ==> s.created(text).wf(),
        s.updated(id, p).wf(),
        s.deleted(id).wf(),
{
    lemma_position_bounds(s.records, id);
    let i = position_of(s.records, id);
    if i >= 0 {
        let u = s.updated(id, p).records;
        assert forall|a: int| 0 <= a < u.len() implies 0 < #[trigger] u[a].id <= s.last_id by {
            assert(u[a].id == s.records[a].id);
        }
        assert forall|a: int, b: int| 0 <= a < b < u.len() implies u[a].id < u[b].id by {
            assert(u[a].id == s.records[a].id);
            assert(u[b].id == s.records[b].id);
        }
        let d = s.deleted(id).records;
        assert forall|a: int| 0 <= a < d.len() implies 0 < #[trigger] d[a].id <= s.last_id by {
            if a < i {
                assert(d[a] == s.records[a]);
            } else {
                assert(d[a] == s.records[a + 1]);
            }
        }
        assert forall|a: int, b: int| 0 <= a < b < d.len() implies d[a].id < d[b].id by {
            let a2 = if a < i { a } else { a + 1 };
            let b2 = if b < i { b } else { b + 1 };
            assert(d[a] == s.records[a2]);
            assert(d[b] == s.records[b2]);
        }
    }
    if s.can_create() {
        let c = s.created(text).records;
        assert forall|a: int| 0 <= a < c.len() implies 0 < #[trigger] c[a].id <= s.last_id + 1 by {
            if a < s.records.len() {
                assert(c[a] == s.records[a]);
            }
        }
        assert forall|a: int, b: int| 0 <= a < b < c.len() implies c[a].id < c[b].id by {
            assert(c[a] == s.records[a]);
            if b < s.records.len() {
                assert(c[b] == s.records[b]);
            }
        }
    }
}

} // verus!
