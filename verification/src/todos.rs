//! View models for the item list: each stored item is turned into a list
//! entry whose UI state depends on which item, if any, is being edited, and
//! the list's view model counts its done and pending entries.

use vstd::prelude::*;

verus! {

/// A stored list item.
#[derive(Clone, Debug)]
pub struct Todo {
    pub id: i32,
    pub done: bool,
    pub description: String,
    pub position: i32,
}

/// How a list entry is rendered.
#[derive(Clone, Copy, Debug, PartialEq, Eq, PartialOrd, Ord, Structural)]
pub enum TodoUiState {
    Normal,
    Editable,
    Disabled,
}

impl TodoUiState {
    /// The CSS class name of this state.
    pub fn label(&self) -> (r: &'static str)
        ensures
            *self is Normal ==> r@ == "normal"@,
            *self is Editable ==> r@ == "editable"@,
            *self is Disabled ==> r@ == "disabled"@,
    {
        match self {
            TodoUiState::Normal => "normal",
            TodoUiState::Editable => "editable",
            TodoUiState::Disabled => "disabled",
        }
    }
}

/// The index page's view model.
pub struct TodosIndexTemplate {}

/// Build the index page's view model.
pub fn render_index() -> (r: TodosIndexTemplate) {
    TodosIndexTemplate {}
}

/// The view model of one rendered list entry.
#[derive(Clone, Debug)]
pub struct TodoLiTemplate {
    pub id: i32,
    pub done: bool,
    pub description: String,
    pub ui_state: TodoUiState,
}

impl From<Todo> for TodoLiTemplate {
    /// A plain entry for an item: same fields, normal UI state.
    fn from(todo: Todo) -> (r: TodoLiTemplate) {
        TodoLiTemplate {
            done: todo.done,
            id: todo.id,
            description: todo.description,
            ui_state: TodoUiState::Normal,
        }
    }
}

impl vstd::std_specs::convert::FromSpecImpl<Todo> for TodoLiTemplate {
    open spec fn obeys_from_spec() -> bool {
        true
    }

    open spec fn from_spec(todo: Todo) -> TodoLiTemplate {
        TodoLiTemplate {
            done: todo.done,
            id: todo.id,
            description: todo.description,
            ui_state: TodoUiState::Normal,
        }
    }
}

/// The list's outer view model.
pub struct TodosUlTemplate {
    pub todos: TodosInnerTemplate,
}

/// The list's inner view model: the rendered entries and whether one of
/// them is in edit mode.
pub struct TodosInnerTemplate {
    pub todos: Vec<TodoLiTemplate>,
    pub editable: bool,
}

/// How many of the entries are done.
pub open spec fn count_done(s: Seq<TodoLiTemplate>) -> nat
    decreases s.len(),
{
    if s.len() == 0 {
        0
    } else {
        count_done(s.drop_last()) + if s.last().done {
            1nat
        } else {
            0nat
        }
    }
}

impl TodosInnerTemplate {
    /// The number of done entries.
    pub fn done_count(&self) -> (r: usize)
        ensures
            r == count_done(self.todos@),
    {
        let n = self.todos.len();
        let mut count: usize = 0;
        for i in 0..n
            invariant
                n == self.todos@.len(),
                count == count_done(self.todos@.take(i as int)),
                count <= i,
        {
            if self.todos[i].done {
                count = count + 1;
            }
            proof {
                assert(self.todos@.take(i + 1).drop_last() =~= self.todos@.take(i as int));
            }
        }
        proof {
            assert(self.todos@.take(n as int) =~= self.todos@);
        }
        count
    }

    /// The number of entries still pending.
    pub fn pending_count(&self) -> (r: usize)
        ensures
            r == self.todos@.len() - count_done(self.todos@),
    {
        proof {
            lemma_count_done_le(self.todos@);
        }
        let done = self.done_count();
        self.todos.len() - done
    }
}

/// At most every entry is done.
proof fn lemma_count_done_le(s: Seq<TodoLiTemplate>)
    ensures
        count_done(s) <= s.len(),
    decreases s.len(),
{
    if s.len() > 0 {
        lemma_count_done_le(s.drop_last());
    }
}

/// The UI state an item gets when `editable_id` is being edited.
pub open spec fn li_state(id: i32, editable_id: Option<i32>) -> TodoUiState {
    match editable_id {
        None => TodoUiState::Normal,
        Some(e) => if id == e {
            TodoUiState::Editable
        } else {
            TodoUiState::Disabled
        },
    }
}

/// Render the items as list entries. With an `editable_id`, that item is
/// editable and every other one disabled; without one, all are normal.
pub fn render_todos(todos: Vec<Todo>, editable_id: Option<i32>) -> (r: TodosInnerTemplate)
    ensures
        r.editable == (editable_id is Some),
        r.todos@.len() == todos@.len(),
        forall|i: int|
            0 <= i < todos@.len() ==> {
                let li = #[trigger] r.todos@[i];
                &&& li.id == todos@[i].id
                &&& li.done == todos@[i].done
                &&& li.description@ == todos@[i].description@
                &&& li.ui_state == li_state(todos@[i].id, editable_id)
            },
{
    let n = todos.len();
    let mut items: Vec<TodoLiTemplate> = Vec::new();
    for i in 0..n
        invariant
            n == todos@.len(),
            items@.len() == i,
            forall|j: int|
                0 <= j < i ==> {
                    let li = #[trigger] items@[j];
                    &&& li.id == todos@[j].id
                    &&& li.done == todos@[j].done
                    &&& li.description@ == todos@[j].description@
                    &&& li.ui_state == li_state(todos@[j].id, editable_id)
                },
    {
        let state = match editable_id {
            None => TodoUiState::Normal,
            Some(e) => if todos[i].id == e {
                TodoUiState::Editable
            } else {
                TodoUiState::Disabled
            },
        };
        let li = TodoLiTemplate {
            id: todos[i].id,
            done: todos[i].done,
            description: todos[i].description.clone(),
            ui_state: state,
        };
        items.push(li);
    }
    let editable = match editable_id {
        None => false,
        Some(_) => true,
    };
    TodosInnerTemplate { todos: items, editable }
}

} // verus!
