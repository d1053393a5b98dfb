use vstd::prelude::*;
use crate::model::{
    lemma_ops_preserve_wf, lemma_position_bounds, lemma_position_exact,
    position_of, RepoView,
};
use crate::todo::{TodoView, UpdateTodo};

verus! {

/// `states[k + 1]` is what creating a record with `texts[k]` makes of `states[k]`,
/// for every step of the run, and each step was allowed to issue an id.
pub open spec fn creation_run(states: Seq<RepoView>, texts: Seq<Seq<char>>) -> bool {
    &&& states.len() == texts.len() + 1
    &&& forall|k: int|
        #![trigger texts[k]]
        0 <= k < texts.len() ==> states[k + 1] == states[k].created(texts[k])
            && states[k].can_create()
}

proof fn lemma_run_last_id(states: Seq<RepoView>, texts: Seq<Seq<char>>, k: int)
    requires
        creation_run(states, texts),
        0 <= k < states.len(),
    ensures
        states[k].last_id == states[0].last_id + k,
    decreases k,
{
    if k > 0 {
        lemma_run_last_id(states, texts, k - 1);
        assert(states[k] == states[k - 1].created(texts[k - 1]));
    }
}

/// Along any run of creations, the ids handed out are strictly increasing, so
/// no two creations ever return the same id.
pub proof fn lemma_create_ids_increase(states: Seq<RepoView>, texts: Seq<Seq<char>>)
    requires
        states.len() > 0,
        states[0].wf(),
        creation_run(states, texts),
    ensures
        forall|i: int, j: int|
            0 <= i < j < texts.len() ==> states[i].next_record(texts[i]).id < states[j].next_record(
                texts[j],
            ).id,
{
    assert forall|i: int, j: int| 0 <= i < j < texts.len() implies states[i].next_record(
        texts[i],
    ).id < states[j].next_record(texts[j]).id by {
        lemma_run_last_id(states, texts, i);
        lemma_run_last_id(states, texts, j);
        assert(states[i + 1] == states[i].created(texts[i]));
        assert(states[j + 1] == states[j].created(texts[j]));
    }
}

/// The id a creation issues belongs to no record already stored, even after
/// deletions: ids are never reused.
pub proof fn lemma_created_id_is_fresh(s: RepoView, text: Seq<char>)
    requires
        s.wf(),
        s.can_create(),
    ensures
        !s.contains(s.next_record(text).id),
{
    let id = s.next_record(text).id;
    lemma_position_bounds(s.records, id);
    if s.contains(id) {
        assert(s.records[position_of(s.records, id)].id <= s.last_id);
    }
}

/// Finding the id that a creation returned yields the record it returned.
pub proof fn lemma_find_after_create(s: RepoView, text: Seq<char>)
    requires
        s.wf(),
        s.can_create(),
    ensures
        s.created(text).find(s.next_record(text).id) == Some(s.next_record(text)),
{
    let c = s.created(text).records;
    assert(c.last() == s.next_record(text));
}

/// A patch that sets only the text replaces the text of the record with `id`
/// and keeps its id and completion flag.
pub proof fn lemma_update_text_only(s: RepoView, id: i32, t: String)
    requires
        s.wf(),
        s.contains(id),
    ensures
        s.updated(id, UpdateTodo { text: Some(t), completed: None }).find(id) == Some(
            TodoView { id, text: t@, completed: s.find(id)->0.completed },
        ),
{
    let p = UpdateTodo { text: Some(t), completed: None };
    lemma_position_bounds(s.records, id);
    lemma_ops_preserve_wf(s, Seq::empty(), id, p);
    let i = position_of(s.records, id);
    let u = s.updated(id, p);
    assert(u.records[i].id == id);
    lemma_position_exact(u.records, i);
}

/// An empty patch changes nothing: the store is the same and the record is
/// still found as it was.
pub proof fn lemma_empty_update_is_noop(s: RepoView, id: i32)
    requires
        s.wf(),
    ensures
        s.updated(id, UpdateTodo { text: None, completed: None }) == s,
{
    let i = position_of(s.records, id);
    lemma_position_bounds(s.records, id);
    if i >= 0 {
        let p = UpdateTodo { text: None, completed: None };
        assert(s.updated(id, p).records =~= s.records);
    }
}

/// After a deletion of `id`, nothing is found under `id`.
pub proof fn lemma_find_after_delete(s: RepoView, id: i32)
    requires
        s.wf(),
    ensures
        s.deleted(id).find(id) is None,
{
    let i = position_of(s.records, id);
    lemma_position_bounds(s.records, id);
    let d = s.deleted(id).records;
    lemma_position_bounds(d, id);
    if i >= 0 && position_of(d, id) >= 0 {
        let k = position_of(d, id);
        if k < i {
            assert(d[k] == s.records[k]);
            assert(s.records[k].id < s.records[i].id);
        } else {
            assert(d[k] == s.records[k + 1]);
            assert(s.records[i].id < s.records[k + 1].id);
        }
    }
}

/// Creating N records in a fresh store leaves exactly N records: the k-th
/// has id k + 1, the k-th text, and is not completed.
pub proof fn lemma_all_after_creates(states: Seq<RepoView>, texts: Seq<Seq<char>>)
    requires
        states.len() > 0,
        states[0] == RepoView::empty(),
        creation_run(states, texts),
    ensures
        states.last().records.len() == texts.len(),
        forall|k: int|
            0 <= k < texts.len() ==> #[trigger] states.last().records[k] == (TodoView {
                id: (k + 1) as i32,
                text: texts[k],
                completed: false,
            }),
    decreases texts.len(),
{
    if texts.len() > 0 {
        let n = texts.len() - 1;
        let s2 = states.drop_last();
        let t2 = texts.drop_last();
        assert forall|k: int| 0 <= k < t2.len() implies s2[k + 1] == s2[k].created(
            #[trigger] t2[k],
        ) && s2[k].can_create() by {
            assert(states[k + 1] == states[k].created(texts[k]));
        }
        lemma_all_after_creates(s2, t2);
        lemma_run_last_id(states, texts, n);
        assert(states[n + 1] == states[n].created(texts[n]));
        assert(states.last() == states[n].created(texts[n]));
    }
}

} // verus!
