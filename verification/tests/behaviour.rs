use chrono::{Datelike, Duration, Local};
use todo_cli::commands::{export_conflict_message, parse_priority, parse_status_filter};
use todo_cli::domain::TodoItem;
use todo_cli::tui::{App, Key};
use todo_cli::utils::{get_task_tags, remove_tags_from_name};
use todo_cli::{
    CommandOutcome, DueDate, Effect, ListInfo, Priority, Status, TodoList, format_outcome,
    format_section, get_priority_icon, get_task_prefix, handle_command, pluralize,
};

fn list_of(names: &[&str]) -> TodoList {
    let mut todo = TodoList::new();
    for n in names {
        todo.add(n.to_string(), None, None).unwrap();
    }
    todo
}

fn run(todo: &mut TodoList, command: &str, key: Option<Vec<&str>>, tag: Option<Vec<&str>>) -> Result<CommandOutcome, String> {
    handle_command(
        todo,
        command,
        key.map(|k| k.into_iter().map(String::from).collect()),
        None,
        None,
        None,
        tag.map(|t| t.into_iter().map(String::from).collect()),
        "unused.json",
    )
    .result
}

fn names(items: &[ListInfo]) -> Vec<String> {
    let mut v: Vec<String> = items.iter().map(|i| i.name.clone()).collect();
    v.sort();
    v
}

#[test]
fn tags_are_read_once_each_without_hash() {
    let tags = get_task_tags("Deploy #work API #urgent #work");
    assert_eq!(tags, vec!["work".to_string(), "urgent".to_string()]);
    assert!(get_task_tags("no tags here").is_empty());
    assert_eq!(get_task_tags("#"), vec!["".to_string()]);
}

#[test]
fn name_keeps_words_joined_by_single_spaces() {
    assert_eq!(remove_tags_from_name("  Deploy   the\tAPI #work  "), "Deploy the API");
    assert_eq!(remove_tags_from_name("#only #tags"), "");
    assert_eq!(remove_tags_from_name(""), "");
}

#[test]
fn cleaning_a_name_twice_changes_nothing() {
    let once = remove_tags_from_name("Walk   my #pet turtle #now");
    assert_eq!(remove_tags_from_name(&once), once);
    assert!(get_task_tags(&once).is_empty());
}

#[test]
fn undo_after_add_restores_tasks() {
    let mut todo = list_of(&["Alpha"]);
    todo.add("Beta #x".into(), Some(Priority::Low), None).unwrap();
    assert_eq!(todo.len(), 2);
    todo.undo().unwrap();
    assert_eq!(todo.len(), 1);
    assert_eq!(todo.status("Beta"), None);
    assert_eq!(todo.status("Alpha"), Some(Status::Todo));
}

#[test]
fn undo_after_remove_restores_the_whole_task() {
    let mut todo = TodoList::new();
    todo.add("Task #a #b".into(), Some(Priority::High), Some("2099-01-02".into())).unwrap();
    todo.remove("Task".into()).unwrap();
    assert_eq!(todo.status("Task"), None);
    todo.undo().unwrap();
    assert_eq!(todo.priority("Task"), Some(Priority::High));
    assert_eq!(todo.due_date("Task"), Some(DueDate { year: 2099, month: 1, day: 2 }));
    assert_eq!(todo.tags("Task"), Some(vec!["a".to_string(), "b".to_string()]));
}

#[test]
fn undo_after_edit_frees_the_new_name() {
    let mut todo = list_of(&["Old"]);
    todo.mark("Old".into(), Status::Done).unwrap();
    todo.edit("Old".into(), "New".into()).unwrap();
    todo.undo().unwrap();
    assert_eq!(todo.status("New"), None);
    assert_eq!(todo.status("Old"), Some(Status::Done));
}

#[test]
fn edit_to_the_same_name_succeeds() {
    let mut todo = list_of(&["Same"]);
    assert_eq!(todo.edit("Same".into(), "Same".into()), Ok("Same".into()));
    assert_eq!(todo.len(), 1);
}

#[test]
fn undo_brings_back_what_clear_all_removed() {
    let mut todo = list_of(&["A", "B"]);
    todo.mark("B".into(), Status::Done).unwrap();
    assert_eq!(todo.clear_all(), 2);
    assert_eq!(todo.len(), 0);
    assert_eq!(todo.undo(), Ok(()));
    assert_eq!(todo.len(), 2);
    assert_eq!(todo.status("A"), Some(Status::Todo));
    assert_eq!(todo.status("B"), Some(Status::Done));
    assert_eq!(todo.undo(), Err("Nothing to undo!".to_string()));
}

#[test]
fn undo_brings_back_what_clear_done_removed() {
    let mut todo = list_of(&["A", "B", "C"]);
    todo.mark("B".into(), Status::Done).unwrap();
    todo.mark("C".into(), Status::Done).unwrap();
    assert_eq!(todo.clear_done(), 2);
    assert_eq!(todo.len(), 1);
    assert_eq!(todo.undo(), Ok(()));
    assert_eq!(todo.len(), 3);
    assert_eq!(todo.status("B"), Some(Status::Done));
    assert_eq!(todo.status("C"), Some(Status::Done));
}

#[test]
fn undo_brings_back_what_clear_todo_removed() {
    let mut todo = list_of(&["A", "B"]);
    todo.mark("B".into(), Status::Done).unwrap();
    assert_eq!(todo.clear_todo(), 1);
    assert_eq!(todo.status("A"), None);
    assert_eq!(todo.undo(), Ok(()));
    assert_eq!(todo.status("A"), Some(Status::Todo));
    assert_eq!(todo.len(), 2);
}

#[test]
fn a_clear_that_removes_nothing_keeps_the_last_change() {
    let mut todo = list_of(&["A"]);
    assert_eq!(todo.clear_done(), 0);
    // The addition is still the change to take back.
    assert_eq!(todo.undo(), Ok(()));
    assert_eq!(todo.len(), 0);
}

#[test]
fn a_cleared_list_survives_storing_and_undo() {
    let mut todo = list_of(&["A"]);
    todo.clear_all();
    let items: Vec<todo_cli::domain::TodoItem> = todo.tasks().iter().map(|t| t.duplicate()).collect();
    let undo = match todo.last_action() {
        Some(todo_cli::domain::UndoAction::Clear { removed }) => Some(todo_cli::domain::UndoAction::Clear {
            removed: removed.iter().map(|t| t.duplicate()).collect(),
        }),
        _ => None,
    };
    let mut loaded = TodoList::from_parts(items, undo);
    assert_eq!(loaded.undo(), Ok(()));
    assert_eq!(loaded.status("A"), Some(Status::Todo));
}

#[test]
fn stored_tags_given_twice_count_once() {
    let item = todo_cli::domain::TodoItem {
        name: "A".to_string(),
        status: Status::Todo,
        priority: Priority::Low,
        due_date: None,
        tags: vec!["x".to_string(), "y".to_string(), "x".to_string()],
    };
    let todo = TodoList::from_parts(vec![item], None);
    assert_eq!(todo.tags("A"), Some(vec!["x".to_string(), "y".to_string()]));
}

#[test]
fn counts_add_up() {
    let mut todo = list_of(&["A", "B", "C", "D"]);
    todo.mark("B".into(), Status::Done).unwrap();
    let (total, open, done) = todo.count();
    assert_eq!(total, open + done);
    assert_eq!((total, open, done), (4, 3, 1));
    let (t, d) = todo.list();
    assert_eq!(t.len() + d.len(), total);
}

#[test]
fn add_errors_name_the_problem() {
    let mut todo = list_of(&["Task"]);
    assert_eq!(todo.add("   ".into(), None, None), Err("Error: Task name cannot be empty".to_string()));
    assert_eq!(
        todo.add("Task #new".into(), None, None),
        Err("The task 'Task' already exist, you can edit it using the command: cargo run -- edit \"My new task\" \"My updated task\"".to_string())
    );
    assert_eq!(
        todo.add("Other".into(), None, Some("2026-13-01".into())),
        Err("Error: '2026-13-01' is not a valid date. Use YYYY-MM-DD".to_string())
    );
    assert_eq!(
        todo.add("Other".into(), None, Some("not a date".into())),
        Err("Error: 'not a date' is not a valid date. Use YYYY-MM-DD".to_string())
    );
    assert_eq!(
        todo.add("Other".into(), None, Some("2000-01-01".into())),
        Err("Error: Due date must be in the future.".to_string())
    );
    assert_eq!(todo.len(), 1);
}

#[test]
fn a_task_due_today_is_accepted() {
    let today = Local::now().date_naive();
    let mut todo = TodoList::new();
    todo.add("Now".into(), None, Some(today.to_string())).unwrap();
    assert_eq!(
        todo.due_date("Now"),
        Some(DueDate { year: today.year(), month: today.month(), day: today.day() })
    );
    assert_eq!(todo.priority("Now"), Some(Priority::Medium));
}

#[test]
fn find_ignores_letter_case() {
    let mut todo = list_of(&["Learn RUST", "Walk"]);
    let (t, d) = todo.find("rust");
    assert_eq!(names(&t), vec!["Learn RUST".to_string()]);
    assert!(d.is_empty());
    let (all, _) = todo.find("");
    assert_eq!(all.len(), 2);
    todo.mark("Walk".into(), Status::Done).unwrap();
    let (t2, d2) = todo.find("WALK");
    assert!(t2.is_empty());
    assert_eq!(names(&d2), vec!["Walk".to_string()]);
}

#[test]
fn csv_has_one_line_per_task() {
    let mut todo = TodoList::new();
    todo.add("Say \"hi\" #b #a".into(), Some(Priority::Low), Some("2099-03-04".into())).unwrap();
    todo.add("Plain".into(), None, None).unwrap();
    todo.mark("Plain".into(), Status::Done).unwrap();
    let csv = todo.to_csv();
    assert_eq!(
        csv,
        "name,status,priority,due_date,tags\n\"Say \"\"hi\"\"\",todo,low,2099-03-04,a;b\n\"Plain\",done,medium,,\n"
    );
}

#[test]
fn csv_sorts_tags() {
    let mut todo = TodoList::new();
    todo.add("Task #work #urgent #important".into(), None, None).unwrap();
    assert!(todo.to_csv().contains("important;urgent;work"));
}

#[test]
fn section_lists_tags_in_order_and_due_dates() {
    colored::control::set_override(false);
    let items = vec![ListInfo {
        name: "Ship".into(),
        priority: Priority::Medium,
        due_date: Some(DueDate { year: 2099, month: 7, day: 9 }),
        tags: vec!["zeta".into(), "alpha".into()],
    }];
    assert_eq!(format_section("Title", items), "\n# Title\n\n * ➡️  Ship [#alpha #zeta] (due: 2099-07-09)\n");
}

#[test]
fn prefixes_mark_overdue_tasks() {
    colored::control::set_override(false);
    let yesterday = Local::now().date_naive() - Duration::days(1);
    let due = DueDate { year: yesterday.year(), month: yesterday.month(), day: yesterday.day() };
    assert_eq!(get_task_prefix(Priority::High, Some(due)), "🔴 OVERDUE:");
    assert_eq!(get_task_prefix(Priority::Low, None), "⬇️ ");
    assert_eq!(get_priority_icon(Priority::High), "⬆️");
    assert_eq!(get_priority_icon(Priority::Medium), "➡️");
}

#[test]
fn plural_forms() {
    assert_eq!(pluralize(1, "task"), "task");
    assert_eq!(pluralize(0, "task"), "tasks");
    assert_eq!(pluralize(2, "task"), "tasks");
}

#[test]
fn counted_outcome_text() {
    colored::control::set_override(false);
    assert_eq!(
        format_outcome(CommandOutcome::Counted { total: 3, total_todo: 2, total_done: 1 }),
        "\n# Total: 3 tasks\n# To Do: 2 tasks\n# Done: 1 task\n"
    );
    assert_eq!(
        format_outcome(CommandOutcome::Listed { todo_items: vec![], done_items: vec![] }),
        "\nNo Tasks found.\n"
    );
    assert_eq!(format_outcome(CommandOutcome::Exported), "✓ Successfully exported!");
    assert_eq!(format_outcome(CommandOutcome::Undone), "✓ Successfully undone!");
}

#[test]
fn options_are_read_from_text() {
    assert_eq!(parse_status_filter("todo"), Some(Status::Todo));
    assert_eq!(parse_status_filter("done"), Some(Status::Done));
    assert_eq!(parse_status_filter("Done"), None);
    assert_eq!(parse_priority("low"), Some(Priority::Low));
    assert_eq!(parse_priority("medium"), Some(Priority::Medium));
    assert_eq!(parse_priority("high"), Some(Priority::High));
    assert_eq!(parse_priority("urgent"), None);
    assert_eq!(Priority::Medium.label(), "Medium");
    assert_eq!(export_conflict_message("a.csv"), "Error: File 'a.csv' already exists");
}

#[test]
fn listing_by_tags() {
    let mut todo = list_of(&["A #work", "B", "C #home", "D #work #home"]);
    match run(&mut todo, "list", None, Some(vec!["none"])) {
        Ok(CommandOutcome::Listed { todo_items, .. }) => assert_eq!(names(&todo_items), vec!["B"]),
        _ => panic!("Expected Listed outcome"),
    }
    match run(&mut todo, "list", None, Some(vec![" home , none"])) {
        Ok(CommandOutcome::Listed { todo_items, .. }) => {
            assert_eq!(names(&todo_items), vec!["B", "C", "D"])
        }
        _ => panic!("Expected Listed outcome"),
    }
    match run(&mut todo, "list", None, Some(vec![",,"])) {
        Ok(CommandOutcome::Listed { todo_items, .. }) => assert_eq!(todo_items.len(), 4),
        _ => panic!("Expected Listed outcome"),
    }
}

#[test]
fn command_errors() {
    let mut todo = list_of(&["A"]);
    assert_eq!(run(&mut todo, "edit", None, None), Err("Key cannot be empty".to_string()));
    assert_eq!(run(&mut todo, "edit", Some(vec![]), None), Err("Old key required".to_string()));
    assert_eq!(run(&mut todo, "edit", Some(vec!["A"]), None), Err("New key required".to_string()));
    assert_eq!(
        run(&mut todo, "edit", Some(vec!["Z", "Y"]), None),
        Err("Edit failed: Task 'Z' not found".to_string())
    );
    assert_eq!(run(&mut todo, "find", None, None), Err("Search keyword cannot be empty".to_string()));
    assert_eq!(run(&mut todo, "add", Some(vec![]), None), Err("Key cannot be empty".to_string()));
    assert_eq!(run(&mut todo, "mark-done", Some(vec!["Z"]), None), Err("Invalid key Z".to_string()));
    assert_eq!(
        run(&mut todo, "count", None, Some(vec!["x"])),
        Err("Error: --tag can only be used with the 'list' command, not 'count'".to_string())
    );
    assert_eq!(run(&mut todo, "undo", None, None), Ok(CommandOutcome::Undone));
    assert_eq!(run(&mut todo, "undo", None, None), Err("Nothing to undo!".to_string()));
}

#[test]
fn replies_say_what_to_store() {
    let mut todo = TodoList::new();
    let reply = handle_command(&mut todo, "add", Some(vec!["A".into()]), None, None, None, None, "file.json");
    assert_eq!(reply.effect, Effect::Save { path: "file.json".to_string() });
    let reply = handle_command(&mut todo, "count", None, None, None, None, None, "file.json");
    assert_eq!(reply.effect, Effect::Nothing);
    let reply = handle_command(&mut todo, "remove", Some(vec!["Z".into()]), None, None, None, None, "file.json");
    assert_eq!(reply.effect, Effect::Nothing);
    let reply = handle_command(&mut todo, "export", None, None, None, None, None, "file.json");
    assert_eq!(
        reply.effect,
        Effect::Export { target: None, csv: "name,status,priority,due_date,tags\n\"A\",todo,medium,,\n".to_string() }
    );
}

#[test]
fn from_parts_keeps_the_later_task() {
    let first = TodoItem { name: "A".into(), status: Status::Todo, priority: Priority::Low, due_date: None, tags: vec![] };
    let second = TodoItem { name: "A".into(), status: Status::Done, priority: Priority::High, due_date: None, tags: vec![] };
    let todo = TodoList::from_parts(vec![first, second], None);
    assert_eq!(todo.len(), 1);
    assert_eq!(todo.status("A"), Some(Status::Done));
    assert_eq!(todo.priority("A"), Some(Priority::High));
}

#[test]
fn full_screen_keys() {
    let mut todo = list_of(&["A", "B"]);
    todo.mark("B".into(), Status::Done).unwrap();
    let mut app = App::new(todo);
    assert_eq!(app.selected, Some(0));
    app.handle_key_event(Key::Up);
    assert_eq!(app.selected, Some(0));
    app.handle_key_event(Key::Char('j'));
    assert_eq!(app.selected, Some(1));
    app.handle_key_event(Key::Down);
    assert_eq!(app.selected, Some(1));
    assert_eq!(app.get_selected_task(), Some(("B".to_string(), true)));
    // toggling the finished task opens it again, and asks for storing
    let effect = app.handle_key_event(Key::Char('d'));
    assert_eq!(effect, Effect::Save { path: "todos.json".to_string() });
    assert_eq!(app.todo.status("B"), Some(Status::Todo));
    // delete with confirmation
    app.handle_key_event(Key::Char('x'));
    assert!(app.confirm_delete.is_some());
    let name = app.confirm_delete.clone().unwrap();
    assert_eq!(app.help_text(), format!("Delete '{}'? Press 'y' to confirm, 'n' or ESC to cancel", name));
    app.handle_key_event(Key::Char('y'));
    assert_eq!(app.todo.len(), 1);
    assert_eq!(app.selected, Some(0));
    assert_eq!(app.confirm_delete, None);
    assert_eq!(app.help_text(), "'q' quit | '↑↓/jk' navigate | 'd' toggle | 'x' delete");
    app.handle_key_event(Key::Char('x'));
    app.handle_key_event(Key::Esc);
    assert_eq!(app.confirm_delete, None);
    app.handle_key_event(Key::Char('q'));
    assert!(app.should_quit);
}

#[test]
fn full_screen_rows() {
    let mut todo = list_of(&["Open"]);
    todo.add("Closed".into(), Some(Priority::High), None).unwrap();
    todo.mark("Closed".into(), Status::Done).unwrap();
    let app = App::new(todo);
    let rows: Vec<String> = app.task_rows().into_iter().map(|r| r.text).collect();
    assert_eq!(rows, vec!["[ ] ➡️ Open".to_string(), "[✓] ⬆️ Closed".to_string()]);
}
