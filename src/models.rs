//! The records held by the store and the requests that create or change them.
//!
//! Timestamps are milliseconds since the Unix epoch, in UTC.

use vstd::prelude::*;

verus! {

/// A task with a priority, optional due and reminder times, and status flags.
#[derive(Clone, Debug, PartialEq, Eq)]
pub struct Todo {
    pub id: String,
    pub title: String,
    pub description: Option<String>,
    /// `high`, `medium` or `low`; any other text is kept and sorts last.
    pub priority: String,
    pub due_date: Option<i64>,
    pub reminder_at: Option<i64>,
    pub completed: bool,
    pub archived: bool,
    pub created_at: i64,
    pub updated_at: i64,
}

/// A free-text note with its tags, stored as a JSON array of strings.
#[derive(Clone, Debug, PartialEq, Eq)]
pub struct Inspiration {
    pub id: String,
    pub content: String,
    pub tags: String,
    pub created_at: i64,
}

/// The fields of a new todo.
#[derive(Clone, Debug, PartialEq, Eq)]
pub struct CreateTodoRequest {
    pub title: String,
    pub description: Option<String>,
    pub priority: String,
    pub due_date: Option<i64>,
    pub reminder_at: Option<i64>,
}

/// A partial change to a todo: a field that is `None` is left as it is,
/// a field that is `Some(v)` is set to `v`. The fields that may be empty
/// take `Some(None)` to clear them.
#[derive(Clone, Debug, PartialEq, Eq)]
pub struct UpdateTodoRequest {
    pub id: String,
    pub title: Option<String>,
    pub description: Option<Option<String>>,
    pub priority: Option<String>,
    pub due_date: Option<Option<i64>>,
    pub reminder_at: Option<Option<i64>>,
    pub completed: Option<bool>,
}

/// The content and ordered tags of a new inspiration.
#[derive(Clone, Debug, PartialEq, Eq)]
pub struct CreateInspirationRequest {
    pub content: String,
    pub tags: Vec<String>,
}

/// Counts over the whole todo table.
#[derive(Clone, Copy, Debug, PartialEq, Eq)]
pub struct TodoStats {
    pub total: i64,
    pub completed: i64,
    /// Todos that are neither completed nor archived.
    pub pending: i64,
    pub archived: i64,
}

/// Why a store command failed.
#[derive(Clone, Copy, Debug, PartialEq, Eq)]
pub enum StoreError {
    /// No row has the given id.
    NotFound,
    /// A row with the new row's id is already stored.
    DuplicateId,
}

/// The record store: one table of todos and one of inspirations.
pub struct Db {
    pub todos: Vec<Todo>,
    pub inspirations: Vec<Inspiration>,
}

/// Some row of `rows` has id `id`.
pub open spec fn has_todo(rows: Seq<Todo>, id: Seq<char>) -> bool {
    exists|i: int| 0 <= i < rows.len() && #[trigger] rows[i].id@ == id
}

/// Some row of `rows` has id `id`.
pub open spec fn has_inspiration(rows: Seq<Inspiration>, id: Seq<char>) -> bool {
    exists|i: int| 0 <= i < rows.len() && #[trigger] rows[i].id@ == id
}

/// No two todos share an id.
pub open spec fn todo_ids_unique(rows: Seq<Todo>) -> bool {
    forall|i: int, j: int|
        0 <= i < rows.len() && 0 <= j < rows.len() && i != j ==> rows[i].id@ != rows[j].id@
}

/// No two inspirations share an id.
pub open spec fn inspiration_ids_unique(rows: Seq<Inspiration>) -> bool {
    forall|i: int, j: int|
        0 <= i < rows.len() && 0 <= j < rows.len() && i != j ==> rows[i].id@ != rows[j].id@
}

impl Db {
    /// Ids are a primary key in both tables.
    pub open spec fn wf(&self) -> bool {
        &&& todo_ids_unique(self.todos@)
        &&& inspiration_ids_unique(self.inspirations@)
    }

    /// An empty store.
    pub fn new() -> (r: Db)
        ensures
            r.wf(),
            r.todos@.len() == 0,
            r.inspirations@.len() == 0,
    {
        Db { todos: Vec::new(), inspirations: Vec::new() }
    }
}

impl Todo {
    /// A copy of this row.
    pub fn copy_row(&self) -> (r: Todo)
        ensures
            r == *self,
    {
        let description = match &self.description {
            Some(d) => Some(d.clone()),
            None => None,
        };
        Todo {
            id: self.id.clone(),
            title: self.title.clone(),
            description,
            priority: self.priority.clone(),
            due_date: self.due_date,
            reminder_at: self.reminder_at,
            completed: self.completed,
            archived: self.archived,
            created_at: self.created_at,
            updated_at: self.updated_at,
        }
    }
}

impl Inspiration {
    /// A copy of this row.
    pub fn copy_row(&self) -> (r: Inspiration)
        ensures
            r == *self,
    {
        Inspiration {
            id: self.id.clone(),
            content: self.content.clone(),
            tags: self.tags.clone(),
            created_at: self.created_at,
        }
    }
}

} // verus!
