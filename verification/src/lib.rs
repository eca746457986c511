//! A task list with priorities, due dates, tags and a one-step undo, with
//! the commands, listings and terminal screens that show and change it.

pub mod calendar;
pub mod commands;
pub mod csv;
pub mod domain;
pub mod formatting;
pub mod laws;
pub mod menu;
pub mod paint;
pub mod text;
pub mod todo_list;
pub mod tui;
pub mod utils;

pub use commands::{CommandOutcome, Effect, Reply, handle_command};
pub use domain::{DueDate, ListInfo, Priority, Status};
pub use formatting::{format_outcome, format_section, get_priority_icon, get_task_prefix, pluralize};
pub use todo_list::TodoList;
pub use tui::TODO_FILE;
