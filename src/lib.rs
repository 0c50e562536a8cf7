//! A personal productivity store: todos with priorities, due dates and
//! reminders, and a collection of tagged inspiration notes.
//!
//! The record store is modelled as two tables held in [`Db`]; every
//! command is an exact, verified statement over those tables. Commands that
//! need the current time or a fresh id take them from the clock and a random
//! generator, and each has a companion that takes them as arguments.

mod external;
pub mod inspiration;
pub mod models;
pub mod text;
pub mod todo;

pub use inspiration::{
    create_inspiration, delete_inspiration, get_inspirations, insert_inspiration,
    restore_inspiration, search_inspirations,
};
pub use models::{
    CreateInspirationRequest, CreateTodoRequest, Db, Inspiration, StoreError, Todo, TodoStats,
    UpdateTodoRequest,
};
pub use text::{same_text, text_contains};
pub use todo::{
    apply_update, complete_todo, create_todo, delete_todo, due_reminders, get_todo_stats,
    get_todos, get_todos_with_reminders, insert_todo, lists_no_later, mark_complete,
    restore_todo, update_todo,
};
