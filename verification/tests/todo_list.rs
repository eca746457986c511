use chrono::{Datelike, Duration, Local, NaiveDate};
use todo_cli::domain::{TodoItem, UndoAction};
use todo_cli::{DueDate, ListInfo, Priority, Status, TodoList};

fn day(d: NaiveDate) -> DueDate {
    DueDate { year: d.year(), month: d.month(), day: d.day() }
}

/// Rebuilds a list from its stored parts, as storing and loading it does.
fn round_trip(todo: &TodoList) -> TodoList {
    let items: Vec<TodoItem> = todo.tasks().iter().map(|t| t.duplicate()).collect();
    let undo = match todo.last_action() {
        None => None,
        Some(UndoAction::Add { key }) => Some(UndoAction::Add { key: key.clone() }),
        Some(UndoAction::Edit { key, new_key, previous_item }) => Some(UndoAction::Edit {
            key: key.clone(),
            new_key: new_key.clone(),
            previous_item: previous_item.duplicate(),
        }),
        Some(UndoAction::MarkDone { key, previous_item }) => Some(UndoAction::MarkDone {
            key: key.clone(),
            previous_item: previous_item.duplicate(),
        }),
        Some(UndoAction::MarkTodo { key, previous_item }) => Some(UndoAction::MarkTodo {
            key: key.clone(),
            previous_item: previous_item.duplicate(),
        }),
        Some(UndoAction::Delete { key, previous_item }) => Some(UndoAction::Delete {
            key: key.clone(),
            previous_item: previous_item.duplicate(),
        }),
        Some(UndoAction::Clear { removed }) => Some(UndoAction::Clear {
            removed: removed.iter().map(|t| t.duplicate()).collect(),
        }),
    };
    TodoList::from_parts(items, undo)
}

#[test]
fn init_todo() {
    let todo = TodoList::new();

    assert!(todo.is_empty());
}

#[test]
fn add_item() {
    let fake_todo = "Something to do";
    let mut todo = TodoList::new();

    todo.add(fake_todo.into(), None, None).expect("Should add item");

    assert_eq!(todo.status(fake_todo), Some(Status::Todo));
    assert_eq!(todo.due_date(fake_todo), None);
}

#[test]
fn add_item_with_due_date() {
    let fake_todo = "Something to break";
    let mut todo = TodoList::new();

    todo.add(fake_todo.into(), Some(Priority::High), Some("2026-12-24".into()))
        .expect("Should add item");

    assert_eq!(todo.status(fake_todo), Some(Status::Todo));
    assert_eq!(todo.priority(fake_todo), Some(Priority::High));
    assert_eq!(
        todo.due_date(fake_todo),
        Some(day(NaiveDate::from_ymd_opt(2026, 12, 24).unwrap()))
    )
}

#[test]
fn add_item_with_due_date_not_in_future() {
    let fake_todo = "Something to break";
    let mut todo = TodoList::new();
    let today = Local::now().naive_local().date();
    let yesterday = today - Duration::days(1);

    let result = todo.add(fake_todo.into(), Some(Priority::High), Some(yesterday.to_string()));

    assert!(result.is_err());
    assert!(result.unwrap_err().contains("future"));
    assert_eq!(todo.len(), 0);
}

#[test]
fn add_item_custom_priority() {
    let fake_todo = "Something else to do";
    let mut todo = TodoList::new();

    todo.add(fake_todo.into(), Some(Priority::High), None).expect("Should add item");

    assert_eq!(todo.status(fake_todo), Some(Status::Todo));
    assert_eq!(todo.priority(fake_todo), Some(Priority::High));
}

#[test]
fn add_items_with_tags() {
    let task_name = "Walk my turtle #challenge #important";
    let cleaned_name = "Walk my turtle";
    let mut todo = TodoList::new();

    todo.add(task_name.into(), None, None).expect("Should add item");

    // Name should be cleaned (tags removed)
    assert_eq!(todo.status(cleaned_name), Some(Status::Todo));
    assert_eq!(todo.status(task_name), None);

    // Tags should be extracted and stored
    let tags = todo.tags(cleaned_name).unwrap();
    assert!(tags.contains(&"important".to_string()));
    assert!(tags.contains(&"challenge".to_string()));
    assert_eq!(tags.len(), 2);
}

#[test]
fn add_task_with_only_tags_fails() {
    let mut todo = TodoList::new();
    let result = todo.add("#work #urgent".into(), None, None);

    assert!(result.is_err());
    assert!(result.unwrap_err().contains("empty"));
    assert_eq!(todo.len(), 0);
}

#[test]
fn add_duplicate_task_with_different_tags_fails() {
    let mut todo = TodoList::new();

    todo.add("Task #bdd".into(), None, None).unwrap();
    let result = todo.add("Task #tdd".into(), None, None);

    assert!(result.is_err());
    assert!(result.unwrap_err().contains("already exist"));
}

#[test]
fn add_item_already_exist() {
    let fake_todo = "Something to do";
    let mut todo = TodoList::new();

    todo.add(fake_todo.into(), None, None).unwrap();
    let result = todo.add(fake_todo.into(), None, None);

    assert!(result.is_err());
    assert!(result.unwrap_err().contains("already exist"));
    assert_eq!(todo.len(), 1);
}

#[test]
fn add_item_does_not_change_value() {
    let fake_todo = "Something to do";
    let mut todo: TodoList = TodoList::new();
    todo.add(fake_todo.into(), None, None).expect("Should add item");

    todo.mark(fake_todo.into(), Status::Done).unwrap();

    todo.add(fake_todo.into(), None, None).expect_err("Should fail adding an item");

    assert_eq!(todo.status(fake_todo), Some(Status::Done));
    assert_eq!(todo.len(), 1);
}

#[test]
fn mark_item() {
    let fake_todo = "Something to do";
    let mut todo = TodoList::new();

    todo.add(fake_todo.into(), None, None).expect("Should add item");

    todo.mark(fake_todo.into(), Status::Done).unwrap();
    assert_eq!(todo.status(fake_todo), Some(Status::Done));

    todo.mark(fake_todo.into(), Status::Todo).unwrap();
    assert_eq!(todo.status(fake_todo), Some(Status::Todo));
}

#[test]
fn mark_item_does_not_exist() {
    let fake_todo = "Something to do";
    let mut todo = TodoList::new();

    assert_eq!(todo.mark(fake_todo.into(), Status::Todo), Err(fake_todo.into()));
}

#[test]
fn list_items() {
    let mut todo = TodoList::new();
    todo.add("Something to do".into(), None, None).expect("Should add item");
    todo.add("Something else to do".into(), None, None).expect("Should add item");
    todo.add("Something done".into(), None, None).expect("Should add item");
    todo.mark("Something done".into(), Status::Done).unwrap();

    let (todo_iter, done_iter) = todo.list();

    let todo_items: Vec<ListInfo> = todo_iter.into_iter().collect();
    let done_items: Vec<ListInfo> = done_iter.into_iter().collect();

    assert!(todo_items.iter().any(|e| e.name == "Something to do"));
    assert!(todo_items.iter().any(|e| e.name == "Something else to do"));
    assert_eq!(todo_items.len(), 2);
    assert!(done_items.iter().any(|e| e.name == "Something done"));
    assert_eq!(done_items.len(), 1);
}

#[test]
fn load_a_saved_todo_list() {
    let mut todo = TodoList::new();
    todo.add("Test item".to_string(), None, None).expect("Should add item");

    let loaded = round_trip(&todo);
    assert_eq!(loaded.status("Test item"), Some(Status::Todo));
}

#[test]
fn remove_item() {
    let mut todo = TodoList::new();
    todo.add("Test item".to_string(), None, None).expect("Should add item");

    let mut loaded = round_trip(&todo);

    assert_eq!(loaded.remove("Test item".into()), Ok("Test item".into()));
}

#[test]
fn remove_item_does_not_exist() {
    let fake_todo = "I'm not in the list";
    let mut todo = TodoList::new();

    assert_eq!(todo.remove(fake_todo.into()), Err(fake_todo.into()));
}

#[test]
fn clear_all_removes_all_items() {
    let mut todo = TodoList::new();
    todo.add("Alpha".into(), None, None).expect("Should add item");
    todo.add("Beta".into(), None, None).expect("Should add item");
    todo.mark("Beta".into(), Status::Done).unwrap();

    let removed_all = todo.clear_all();
    assert_eq!(removed_all, 2);
}

#[test]
fn clear_all_no_items() {
    let mut todo = TodoList::new();

    let removed_all = todo.clear_all();
    assert_eq!(removed_all, 0);
}

#[test]
fn clear_all_removes_all_items_from_storage() {
    let mut todo = TodoList::new();

    todo.add("Alpha".into(), None, None).expect("Should add item");
    todo.add("Beta".into(), None, None).expect("Should add item");
    todo.mark("Beta".into(), Status::Done).unwrap();

    let mut loaded = round_trip(&todo);
    assert_eq!(loaded.status("Alpha"), Some(Status::Todo));

    let removed_stored_list = loaded.clear_all();
    assert_eq!(removed_stored_list, 2);
}

#[test]
fn clear_done_removes_only_done_items() {
    let mut todo = TodoList::new();
    todo.add("Alpha".into(), None, None).expect("Should add item");
    todo.add("Beta".into(), None, None).expect("Should add item");
    todo.add("Delta".into(), None, None).expect("Should add item");
    todo.mark("Delta".into(), Status::Done).unwrap();

    let removed = todo.clear_done();

    assert_eq!(removed, 1);
    assert_eq!(todo.len(), 2);
    assert_eq!(todo.status("Alpha"), Some(Status::Todo));
    assert_eq!(todo.status("Beta"), Some(Status::Todo));
    assert_eq!(todo.status("Delta"), None);
}

#[test]
fn clear_done_no_items() {
    let mut todo = TodoList::new();
    let removed = todo.clear_done();

    assert_eq!(removed, 0);
    assert_eq!(todo.len(), 0);
}

#[test]
fn clear_todo_removes_only_todo_items() {
    let mut todo = TodoList::new();
    todo.add("Alpha".into(), None, None).expect("Should add item");
    todo.add("Beta".into(), None, None).expect("Should add item");
    todo.add("Delta".into(), None, None).expect("Should add item");
    todo.mark("Delta".into(), Status::Done).unwrap();

    let removed = todo.clear_todo();

    assert_eq!(removed, 2);
    assert_eq!(todo.len(), 1);
    assert_eq!(todo.status("Alpha"), None);
    assert_eq!(todo.status("Beta"), None);
    assert_eq!(todo.status("Delta"), Some(Status::Done));
}

#[test]
fn clear_todo_no_items() {
    let mut todo = TodoList::new();
    let removed = todo.clear_done();

    assert_eq!(removed, 0);
    assert_eq!(todo.len(), 0);
}

#[test]
fn edit_item_renames_key_preserves_status() {
    let mut todo = TodoList::new();
    todo.add("Old task".into(), None, None).expect("Should add item");

    let result = todo.edit("Old task".into(), "New task".into());

    assert_eq!(result, Ok("New task".into()));
    assert_eq!(todo.status("Old task"), None);
    assert_eq!(todo.status("New task"), Some(Status::Todo));
    assert_eq!(todo.len(), 1);
}

#[test]
fn edit_item_old_key_does_not_exist() {
    let mut todo = TodoList::new();
    todo.add("Existing task".into(), None, None).expect("Should add item");

    let result = todo.edit("Non-existent".into(), "New name".into());

    assert_eq!(result, Err("Task 'Non-existent' not found".into()));
    assert_eq!(todo.len(), 1);
}

#[test]
fn edit_item_preserves_done_status() {
    let mut todo = TodoList::new();
    let item = "Task";

    todo.add(item.into(), None, None).expect("Should add item");
    todo.mark(item.into(), Status::Done).unwrap();

    let result = todo.edit(item.into(), "Renamed task".into());

    assert_eq!(result, Ok("Renamed task".into()));
    assert_eq!(todo.status("Renamed task"), Some(Status::Done));
}

#[test]
fn edit_item_new_key_already_exists() {
    let mut todo = TodoList::new();
    todo.add("Task A".into(), None, None).expect("Should add item");
    todo.add("Task B".into(), None, None).expect("Should add item");

    let result = todo.edit("Task A".into(), "Task B".into());

    assert_eq!(result, Err("Task 'Task B' already exists".into()));
    assert_eq!(todo.len(), 2);
    assert_eq!(todo.status("Task A"), Some(Status::Todo));
    assert_eq!(todo.status("Task B"), Some(Status::Todo));
}

#[test]
fn count_returns_total_items_grouped() {
    let mut todo = TodoList::new();
    todo.add("Task A".into(), None, None).expect("Should add item");
    todo.add("Task B".into(), None, None).expect("Should add item");
    todo.add("Task C".into(), None, None).expect("Should add item");

    todo.add("Task D".into(), None, None).expect("Should add item");
    todo.mark("Task D".into(), Status::Done).unwrap();
    todo.add("Task E".into(), None, None).expect("Should add item");
    todo.mark("Task E".into(), Status::Done).unwrap();

    let result = todo.count();
    assert_eq!(result, (5, 3, 2));
}

#[test]
fn search_filters_items() {
    let mut todo = TodoList::new();
    todo.add("Learn Rust".into(), None, None).expect("Should add item");

    todo.add("Walk my fish".into(), None, None).expect("Should add item");

    todo.add("Practice Rust".into(), None, None).expect("Should add item");

    todo.add("Collect gold".into(), None, None).expect("Should add item");
    todo.mark("Collect gold".into(), Status::Done).unwrap();

    todo.add("Tattooing Rust in my arm".into(), None, None).expect("Should add item");
    todo.mark("Tattooing Rust in my arm".into(), Status::Done).unwrap();

    let (todos, dones) = todo.find("Rust");
    assert_eq!(todos.len(), 2);
    assert_eq!(dones.len(), 1);
}

#[test]
fn export_to_stdout_returns_csv_string() {
    let mut todo = TodoList::new();
    todo.add("Task A".into(), None, None).unwrap();

    let csv = todo.to_csv();

    assert!(csv.contains("name,status,priority,due_date,tags"));
    assert!(csv.contains("Task A"));
}

#[test]
fn undo_add_removes_item() {
    let mut todo = TodoList::new();
    let fake_todo = "Task A";

    todo.add(fake_todo.into(), None, None).unwrap();

    let result = todo.undo();

    assert!(result.is_ok());
    assert_eq!(todo.len(), 0);
}

#[test]
fn undo_edit_restores_original() {
    let mut todo = TodoList::new();
    let fake_todo = "Task A";

    todo.add(fake_todo.into(), None, None).expect("Should add item");

    let result = todo.edit(fake_todo.into(), "Task B".into());

    assert_eq!(result, Ok("Task B".into()));
    assert_eq!(todo.status(fake_todo), None);
    assert_eq!(todo.status("Task B"), Some(Status::Todo));
    assert_eq!(todo.len(), 1);

    let undo_result = todo.undo();
    assert!(undo_result.is_ok());
    assert_eq!(todo.status(fake_todo), Some(Status::Todo));
    assert_eq!(todo.len(), 1);
}

#[test]
fn undo_mark_done_restores_todo_status() {
    let fake_todo = "Something to do";
    let mut todo = TodoList::new();

    todo.add(fake_todo.into(), None, None).expect("Should add item");

    todo.mark(fake_todo.into(), Status::Done).unwrap();

    assert_eq!(todo.status(fake_todo), Some(Status::Done));

    todo.undo().expect("Undo mark as done action");
    assert_eq!(todo.status(fake_todo), Some(Status::Todo));
}

#[test]
fn undo_mark_todo_restores_done_status() {
    let fake_todo = "Something to do";
    let mut todo = TodoList::new();

    todo.add(fake_todo.into(), None, None).expect("Should add item");

    todo.mark(fake_todo.into(), Status::Done).unwrap();
    assert_eq!(todo.status(fake_todo), Some(Status::Done));

    todo.mark(fake_todo.into(), Status::Todo).unwrap();
    assert_eq!(todo.status(fake_todo), Some(Status::Todo));

    todo.undo().expect("Undo mark as todo action");
    assert_eq!(todo.status(fake_todo), Some(Status::Done));
}

#[test]
fn undo_delete_restores_item() {
    let mut todo = TodoList::new();
    todo.add("Test item".to_string(), None, None).expect("Should add item");

    let mut loaded_item = round_trip(&todo);

    assert_eq!(loaded_item.remove("Test item".into()), Ok("Test item".into()));

    let result = loaded_item.undo();

    assert!(result.is_ok());
    assert_eq!(loaded_item.len(), 1);
}

#[test]
fn undo_without_previous_action_returns_error() {
    let mut todo = TodoList::new();
    let result = todo.undo();

    assert_eq!(result, Err("Nothing to undo!".to_string()));
}

#[test]
fn undo_twice_returns_error() {
    let mut todo = TodoList::new();

    todo.add("Task".into(), None, None).unwrap();

    todo.undo().unwrap();

    let result = todo.undo();

    assert_eq!(result, Err("Nothing to undo!".to_string()));
}

#[test]
fn new_operation_overwrites_previous_undo() {
    let mut todo = TodoList::new();

    todo.add("Task A".into(), None, None).unwrap();
    todo.add("Task B".into(), None, None).unwrap();

    todo.undo().unwrap();

    assert_eq!(todo.len(), 1); // Task A remains
    assert_eq!(todo.status("Task A"), Some(Status::Todo));
    assert_eq!(todo.status("Task B"), None);
}
