//! The decisions of the full-screen mode: moving the selection, marking and
//! deleting tasks by key, and what each row and the help line say.

use vstd::prelude::*;
use crate::commands::{Effect, EffectView, ReplyView, handle_command, handled};
use crate::domain::{InfoView, ListInfo, Priority, Status, info_views};
use crate::formatting::{get_priority_icon, priority_icon};
use crate::text::{concat3, owned, views};
use crate::todo_list::{TodoList, listing, opt_view};

verus! {

/// The file in which the list is kept.
pub const TODO_FILE: &'static str = "todos.json";

/// A key pressed in the full-screen mode.
#[derive(Debug, Clone, Copy, PartialEq, Eq, Structural)]
pub enum Key {
    Char(char),
    Up,
    Down,
    Esc,
    Other,
}

/// The state of the full-screen mode: the list, the selected row, whether
/// to quit, and the task waiting for a confirmed deletion.
pub struct App {
    pub todo: TodoList,
    pub selected: Option<usize>,
    pub should_quit: bool,
    pub confirm_delete: Option<String>,
}

/// The name of the task in the selected row, and whether it is finished:
/// the open tasks come first, then the finished ones.
pub open spec fn selected_task(list: TodoList, selected: Option<usize>) -> Option<(Seq<char>, bool)> {
    match selected {
        None => None,
        Some(i) => {
            let t = listing(list.entries(), Status::Todo);
            let d = listing(list.entries(), Status::Done);
            if i < t.len() {
                Some((t[i as int].name, false))
            } else if i - t.len() < d.len() {
                Some((d[i - t.len()].name, true))
            } else {
                None
            }
        },
    }
}

/// The selection after moving down: one row further while there are more
/// tasks, the first row where nothing was selected.
pub open spec fn moved_down(selected: Option<usize>, len: nat) -> Option<usize> {
    match selected {
        Some(i) => if len > 0 && i < len - 1 {
            Some((i + 1) as usize)
        } else {
            Some(i)
        },
        None => Some(0),
    }
}

/// The selection after moving up: one row back, not before the first.
pub open spec fn moved_up(selected: Option<usize>) -> Option<usize> {
    match selected {
        Some(i) => if i > 0 {
            Some((i - 1) as usize)
        } else {
            Some(0)
        },
        None => Some(0),
    }
}

/// The selection after a deletion left `len` tasks: none in an empty
/// list, else kept within the list.
pub open spec fn clamped(selected: Option<usize>, len: nat) -> Option<usize> {
    if len == 0 {
        None
    } else {
        match selected {
            Some(s) => if s >= len {
                Some((len - 1) as usize)
            } else {
                Some(s)
            },
            None => None,
        }
    }
}

/// The command that toggles a task: finished tasks become open again.
pub open spec fn toggle_command(done: bool) -> Seq<char> {
    if done {
        "mark-todo"@
    } else {
        "mark-done"@
    }
}

/// What toggling the selected task does to `old`, giving `new` and
/// `effect`: the task is marked open if finished, finished if open.
pub open spec fn toggled(old: App, new: App, effect: EffectView) -> bool {
    match selected_task(old.todo, old.selected) {
        None => new == old && effect == EffectView::Nothing,
        Some(chosen) => exists|reply: ReplyView|
            {
                &&& handled(
                    old.todo,
                    new.todo,
                    toggle_command(chosen.1),
                    Some(seq![chosen.0]),
                    None,
                    None,
                    None,
                    None,
                    TODO_FILE@,
                    reply,
                )
                &&& effect == #[trigger] reply.effect
                &&& new == App { todo: new.todo, ..old }
            },
    }
}

/// What the key `key` does to the state `old`, giving `new` and the effect
/// `effect` for the caller to carry out.
pub open spec fn key_handled(old: App, new: App, key: Key, effect: EffectView) -> bool {
    match key {
        Key::Char('q') => {
            &&& new == App { should_quit: true, ..old }
            &&& effect == EffectView::Nothing
        },
        Key::Down | Key::Char('j') => {
            &&& new == App { selected: moved_down(old.selected, old.todo.entries().len()), ..old }
            &&& effect == EffectView::Nothing
        },
        Key::Up | Key::Char('k') => {
            &&& new == App { selected: moved_up(old.selected), ..old }
            &&& effect == EffectView::Nothing
        },
        Key::Char('d') => toggled(old, new, effect),
        Key::Char('x') => {
            &&& effect == EffectView::Nothing
            &&& if old.confirm_delete is Some {
                new == App { confirm_delete: None, ..old }
            } else {
                &&& new.todo == old.todo
                &&& new.selected == old.selected
                &&& new.should_quit == old.should_quit
                &&& opt_view(new.confirm_delete) == match selected_task(old.todo, old.selected) {
                    Some((name, _)) => Some(name),
                    None => None,
                }
            }
        },
        Key::Char('y') => match old.confirm_delete {
            None => new == old && effect == EffectView::Nothing,
            Some(name) => exists|reply: ReplyView|
                {
                    &&& #[trigger] handled(
                        old.todo,
                        new.todo,
                        "remove"@,
                        Some(seq![name@]),
                        None,
                        None,
                        None,
                        None,
                        TODO_FILE@,
                        reply,
                    )
                    &&& effect == reply.effect
                    &&& new.confirm_delete is None
                    &&& new.should_quit == old.should_quit
                    &&& new.selected == clamped(old.selected, new.todo.entries().len())
                },
        },
        Key::Char('n') | Key::Esc => {
            &&& new == App { confirm_delete: None, ..old }
            &&& effect == EffectView::Nothing
        },
        _ => new == old && effect == EffectView::Nothing,
    }
}

impl App {
    /// The full-screen state for a list, with the first row selected.
    pub fn new(todo: TodoList) -> (r: App)
        ensures
            r.todo == todo,
            r.selected == Some(0usize),
            !r.should_quit,
            r.confirm_delete is None,
    {
        App { todo, selected: Some(0), should_quit: false, confirm_delete: None }
    }

    /// The selected task's name and whether it is finished.
    pub fn get_selected_task(&self) -> (r: Option<(String, bool)>)
        ensures
            match r {
                Some((name, done)) => selected_task(self.todo, self.selected) == Some((name@, done)),
                None => selected_task(self.todo, self.selected) is None,
            },
    {
        let idx = match self.selected {
            Some(i) => i,
            None => {
                return None;
            },
        };
        let (todo_items, done_items) = self.todo.list();
        let total_todo = todo_items.len();
        if idx < total_todo {
            return Some((todo_items[idx].name.clone(), false));
        }
        let done_idx = idx - total_todo;
        if done_idx < done_items.len() {
            return Some((done_items[done_idx].name.clone(), true));
        }
        None
    }

    /// Carries out a key press; gives what the caller is to do afterwards
    /// (store the list where a task was marked or deleted).
    pub fn handle_key_event(&mut self, key: Key) -> (r: Effect)
        ensures
            key_handled(*old(self), *final(self), key, r@),
    {
        match key {
            Key::Char('q') => {
                self.should_quit = true;
                Effect::Nothing
            },
            Key::Down | Key::Char('j') => {
                let i = match self.selected {
                    Some(i) => {
                        let todo_count = self.todo.len();
                        if todo_count > 0 && i < todo_count - 1 {
                            i + 1
                        } else {
                            i
                        }
                    },
                    None => 0,
                };
                self.selected = Some(i);
                Effect::Nothing
            },
            Key::Up | Key::Char('k') => {
                let i = match self.selected {
                    Some(i) => if i > 0 {
                        i - 1
                    } else {
                        0
                    },
                    None => 0,
                };
                self.selected = Some(i);
                Effect::Nothing
            },
            Key::Char('d') => {
                match self.get_selected_task() {
                    None => Effect::Nothing,
                    Some((task_name, is_done)) => {
                        let command = if is_done {
                            "mark-todo"
                        } else {
                            "mark-done"
                        };
                        let ghost name = task_name@;
                        let keys = vec![task_name];
                        assert(views(keys@) =~= seq![name]);
                        let reply = handle_command(
                            &mut self.todo,
                            command,
                            Some(keys),
                            None,
                            None,
                            None,
                            None,
                            TODO_FILE,
                        );
                        assert(reply@.effect == reply.effect@);
                        reply.effect
                    },
                }
            },
            Key::Char('x') => {
                if self.confirm_delete.is_some() {
                    self.confirm_delete = None;
                    return Effect::Nothing;
                }
                match self.get_selected_task() {
                    Some((task_name, _)) => {
                        self.confirm_delete = Some(task_name);
                    },
                    None => {},
                }
                Effect::Nothing
            },
            Key::Char('y') => {
                match self.confirm_delete.take() {
                    None => Effect::Nothing,
                    Some(task_name) => {
                        let ghost name = task_name@;
                        let keys = vec![task_name];
                        assert(views(keys@) =~= seq![name]);
                        let reply = handle_command(
                            &mut self.todo,
                            "remove",
                            Some(keys),
                            None,
                            None,
                            None,
                            None,
                            TODO_FILE,
                        );
                        let new_len = self.todo.len();
                        if new_len == 0 {
                            self.selected = None;
                        } else if let Some(selected) = self.selected {
                            if selected >= new_len {
                                self.selected = Some(new_len - 1);
                            }
                        }
                        reply.effect
                    },
                }
            },
            Key::Char('n') | Key::Esc => {
                self.confirm_delete = None;
                Effect::Nothing
            },
            _ => Effect::Nothing,
        }
    }
}

/// A row of the task table: its text, and the status and priority that
/// choose its colour.
pub struct TaskRow {
    pub text: String,
    pub status: Status,
    pub priority: Priority,
}

/// The colour of a row of the task table.
#[derive(PartialEq, Eq, Structural, Debug, Clone, Copy)]
pub enum RowTint {
    /// A finished task: light green, dimmed.
    DimLightGreen,
    /// An open task of high priority.
    Red,
    /// An open task of medium priority.
    Yellow,
    /// An open task of low priority.
    Green,
}

/// The colour of a row: finished tasks dimmed light green, open tasks by
/// their priority (high red, medium yellow, low green).
pub open spec fn tint_of(status: Status, priority: Priority) -> RowTint {
    match status {
        Status::Done => RowTint::DimLightGreen,
        Status::Todo => match priority {
            Priority::High => RowTint::Red,
            Priority::Medium => RowTint::Yellow,
            Priority::Low => RowTint::Green,
        },
    }
}

impl TaskRow {
    /// The colour in which the row is drawn.
    pub fn tint(&self) -> (r: RowTint)
        ensures
            r == tint_of(self.status, self.priority),
    {
        match self.status {
            Status::Done => RowTint::DimLightGreen,
            Status::Todo => match self.priority {
                Priority::High => RowTint::Red,
                Priority::Medium => RowTint::Yellow,
                Priority::Low => RowTint::Green,
            },
        }
    }
}

/// The text of a row: a check box (ticked for a finished task), the
/// priority arrow and the name.
pub open spec fn row_text(it: InfoView, done: bool) -> Seq<char> {
    "["@ + (if done {
        "✓"@
    } else {
        " "@
    }) + "] "@ + priority_icon(it.priority) + " "@ + it.name
}

/// The texts of the rows of the listed tasks `s`.
pub open spec fn row_texts(s: Seq<InfoView>, done: bool) -> Seq<Seq<char>> {
    s.map_values(|it: InfoView| row_text(it, done))
}

/// The texts of a sequence of rows.
pub open spec fn texts_of(rows: Seq<TaskRow>) -> Seq<Seq<char>> {
    rows.map_values(|r: TaskRow| r.text@)
}

fn push_rows(out: &mut Vec<TaskRow>, items: &Vec<ListInfo>, status: Status)
    ensures
        texts_of(final(out)@) == texts_of(old(out)@) + row_texts(
            info_views(items@),
            status == Status::Done,
        ),
        final(out)@.len() == old(out)@.len() + items@.len(),
        forall|i: int| old(out)@.len() <= i < final(out)@.len() ==> (#[trigger] final(out)@[i]).status == status,
        forall|i: int|
            old(out)@.len() <= i < final(out)@.len() ==> (#[trigger] final(out)@[i]).priority == items@[i
                - old(out)@.len()].priority,
        forall|i: int| 0 <= i < old(out)@.len() ==> #[trigger] final(out)@[i] == old(out)@[i],
{
    let mut i: usize = 0;
    while i < items.len()
        invariant
            0 <= i <= items.len(),
            out@.len() == old(out)@.len() + i,
            texts_of(out@) == texts_of(old(out)@) + row_texts(
                info_views(items@).take(i as int),
                status == Status::Done,
            ),
            forall|k: int| old(out)@.len() <= k < out@.len() ==> (#[trigger] out@[k]).status == status,
            forall|k: int|
                old(out)@.len() <= k < out@.len() ==> (#[trigger] out@[k]).priority == items@[k
                    - old(out)@.len()].priority,
            forall|k: int| 0 <= k < old(out)@.len() ==> #[trigger] out@[k] == old(out)@[k],
        decreases items.len() - i,
    {
        let item = &items[i];
        let mut text = match status {
            Status::Done => concat3("[", "✓", "] "),
            Status::Todo => concat3("[", " ", "] "),
        };
        text.append(get_priority_icon(item.priority).as_str());
        text.append(" ");
        text.append(item.name.as_str());
        let ghost before = texts_of(out@);
        out.push(TaskRow { text, status, priority: item.priority });
        assert(texts_of(out@) =~= before.push(row_text(item@, status == Status::Done)));
        assert(info_views(items@).take(i + 1) =~= info_views(items@).take(i as int).push(item@));
        assert(row_texts(info_views(items@).take(i + 1), status == Status::Done) =~= row_texts(
            info_views(items@).take(i as int),
            status == Status::Done,
        ).push(row_text(item@, status == Status::Done)));
        i = i + 1;
    }
    assert(info_views(items@).take(items.len() as int) =~= info_views(items@));
}

impl App {
    /// The rows of the task table: the open tasks, then the finished ones.
    pub fn task_rows(&self) -> (r: Vec<TaskRow>)
        ensures
            texts_of(r@) == row_texts(listing(self.todo.entries(), Status::Todo), false) + row_texts(
                listing(self.todo.entries(), Status::Done),
                true,
            ),
            r@.len() == listing(self.todo.entries(), Status::Todo).len() + listing(
                self.todo.entries(),
                Status::Done,
            ).len(),
            forall|i: int|
                0 <= i < r@.len() ==> (#[trigger] r@[i]).status == if i < listing(
                    self.todo.entries(),
                    Status::Todo,
                ).len() {
                    Status::Todo
                } else {
                    Status::Done
                },
            forall|i: int|
                0 <= i < r@.len() ==> (#[trigger] r@[i]).priority == if i < listing(
                    self.todo.entries(),
                    Status::Todo,
                ).len() {
                    listing(self.todo.entries(), Status::Todo)[i].priority
                } else {
                    listing(self.todo.entries(), Status::Done)[i - listing(
                        self.todo.entries(),
                        Status::Todo,
                    ).len()].priority
                },
    {
        let (todo_items, done_items) = self.todo.list();
        let mut rows: Vec<TaskRow> = Vec::new();
        assert(texts_of(rows@) =~= Seq::<Seq<char>>::empty());
        push_rows(&mut rows, &todo_items, Status::Todo);
        push_rows(&mut rows, &done_items, Status::Done);
        assert forall|i: int| 0 <= i < rows@.len() implies (#[trigger] rows@[i]).priority == if i
            < todo_items@.len() {
            info_views(todo_items@)[i].priority
        } else {
            info_views(done_items@)[i - todo_items@.len()].priority
        } by {
            if i < todo_items@.len() {
                assert(info_views(todo_items@)[i] == todo_items@[i]@);
            } else {
                assert(info_views(done_items@)[i - todo_items@.len()] == done_items@[i - todo_items@.len()]@);
            }
        }
        rows
    }

    /// The help line: the question while a deletion waits for its
    /// confirmation, the keys otherwise.
    pub fn help_text(&self) -> (r: String)
        ensures
            r@ == match self.confirm_delete {
                Some(name) => "Delete '"@ + name@ + "'? Press 'y' to confirm, 'n' or ESC to cancel"@,
                None => "'q' quit | '↑↓/jk' navigate | 'd' toggle | 'x' delete"@,
            },
    {
        match &self.confirm_delete {
            Some(name) => concat3(
                "Delete '",
                name.as_str(),
                "'? Press 'y' to confirm, 'n' or ESC to cancel",
            ),
            None => owned("'q' quit | '↑↓/jk' navigate | 'd' toggle | 'x' delete"),
        }
    }
}

} // verus!
