use vstd::prelude::*;

verus! {

/// A stored todo record.
#[derive(Debug, PartialEq, Eq, Clone)]
pub struct Todo {
    pub id: i32,
    pub text: String,
    pub completed: bool,
}

/// The body of a creation request: only the text is chosen by the caller.
#[derive(Debug, PartialEq, Eq, Clone)]
pub struct CreateTodo {
    pub text: String,
}

/// A partial patch: a field left `None` keeps its stored value.
#[derive(Debug, PartialEq, Eq, Clone)]
pub struct UpdateTodo {
    pub text: Option<String>,
    pub completed: Option<bool>,
}

/// The only domain error: no record has the given id.
#[derive(Debug, PartialEq, Eq, Clone, Copy)]
pub enum RepositoryError {
    NotFound(i32),
}

/// Mathematical view of a [`Todo`].
pub struct TodoView {
    pub id: i32,
    pub text: Seq<char>,
    pub completed: bool,
}

impl View for Todo {
    type V = TodoView;

    open spec fn view(&self) -> TodoView {
        TodoView { id: self.id, text: self.text@, completed: self.completed }
    }
}

/// The record that a patch turns `t` into: each field given in `p` replaces
/// the stored one, the others are kept.
pub open spec fn patched(t: TodoView, p: UpdateTodo) -> TodoView {
    TodoView {
        id: t.id,
        text: match p.text {
            Some(s) => s@,
            None => t.text,
        },
        completed: match p.completed {
            Some(c) => c,
            None => t.completed,
        },
    }
}

impl Todo {
    /// A fresh, not yet completed record.
    pub fn new(id: i32, text: String) -> (r: Self)
        ensures
            r@ == (TodoView { id, text: text@, completed: false }),
    {
        Self { id, text, completed: false }
    }

    /// A copy of the record with the same view.
    pub(crate) fn duplicate(&self) -> (r: Self)
        ensures
            r@ == self@,
    {
        Todo { id: self.id, text: self.text.clone(), completed: self.completed }
    }

    /// Applies a patch in place; see [`patched`].
    pub(crate) fn apply(&mut self, p: UpdateTodo)
        ensures
            final(self)@ == patched(old(self)@, p),
    {
        let ghost p0 = p;
        match p.text {
            Some(s) => {
                self.text = s;
            },
            None => {},
        }
        match p.completed {
            Some(c) => {
                self.completed = c;
            },
            None => {},
        }
        assert(self@ == patched(old(self)@, p0));
    }
}

} // verus!
