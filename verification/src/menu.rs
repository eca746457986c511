//! The decisions of the menu mode: what each answered menu entry does, as
//! a command to run or a message to show.

use vstd::prelude::*;
use crate::domain::{InfoView, ListInfo, Priority, Status, info_views};
use crate::text::{owned, views};
use crate::todo_list::{TodoList, listing};

verus! {

/// A menu entry as the user answered it. A `pick` is the place of the
/// chosen task in the listing that the entry offers; `filter` is the place
/// of the chosen status filter (all, open, finished).
#[allow(inconsistent_fields)]
pub enum MenuChoice {
    Add { name: String, priority: Option<Priority>, due: String },
    List { filter: usize, tags: String },
    MarkDone { pick: Option<usize> },
    MarkTodo { pick: Option<usize> },
    Edit { pick: usize, new_name: String },
    Remove { pick: usize, confirmed: bool },
    Count,
    Search { keyword: String },
    Export { file: String },
    Undo { confirmed: bool },
    Exit,
}

/// The mathematical value of an answered menu entry.
#[allow(inconsistent_fields)]
pub enum MenuChoiceView {
    Add { name: Seq<char>, priority: Option<Priority>, due: Seq<char> },
    List { filter: usize, tags: Seq<char> },
    MarkDone { pick: Option<usize> },
    MarkTodo { pick: Option<usize> },
    Edit { pick: usize, new_name: Seq<char> },
    Remove { pick: usize, confirmed: bool },
    Count,
    Search { keyword: Seq<char> },
    Export { file: Seq<char> },
    Undo { confirmed: bool },
    Exit,
}

impl View for MenuChoice {
    type V = MenuChoiceView;

    open spec fn view(&self) -> MenuChoiceView {
        match self {
            MenuChoice::Add { name, priority, due } => MenuChoiceView::Add {
                name: name@,
                priority: *priority,
                due: due@,
            },
            MenuChoice::List { filter, tags } => MenuChoiceView::List { filter: *filter, tags: tags@ },
            MenuChoice::MarkDone { pick } => MenuChoiceView::MarkDone { pick: *pick },
            MenuChoice::MarkTodo { pick } => MenuChoiceView::MarkTodo { pick: *pick },
            MenuChoice::Edit { pick, new_name } => MenuChoiceView::Edit { pick: *pick, new_name: new_name@ },
            MenuChoice::Remove { pick, confirmed } => MenuChoiceView::Remove {
                pick: *pick,
                confirmed: *confirmed,
            },
            MenuChoice::Count => MenuChoiceView::Count,
            MenuChoice::Search { keyword } => MenuChoiceView::Search { keyword: keyword@ },
            MenuChoice::Export { file } => MenuChoiceView::Export { file: file@ },
            MenuChoice::Undo { confirmed } => MenuChoiceView::Undo { confirmed: *confirmed },
            MenuChoice::Exit => MenuChoiceView::Exit,
        }
    }
}

/// What the menu does with an answered entry: run a command with these
/// arguments, show a message and go on, or show a message and stop.
pub enum MenuAction {
    Run {
        command: String,
        key: Option<Vec<String>>,
        status: Option<Status>,
        priority: Option<Priority>,
        due: Option<String>,
        tag: Option<Vec<String>>,
    },
    Say(String),
    Quit(String),
}

/// The mathematical value of what the menu does.
pub enum MenuActionView {
    Run {
        command: Seq<char>,
        key: Option<Seq<Seq<char>>>,
        status: Option<Status>,
        priority: Option<Priority>,
        due: Option<Seq<char>>,
        tag: Option<Seq<Seq<char>>>,
    },
    Say(Seq<char>),
    Quit(Seq<char>),
}

impl View for MenuAction {
    type V = MenuActionView;

    open spec fn view(&self) -> MenuActionView {
        match self {
            MenuAction::Run { command, key, status, priority, due, tag } => MenuActionView::Run {
                command: command@,
                key: match key {
                    Some(k) => Some(views(k@)),
                    None => None,
                },
                status: *status,
                priority: *priority,
                due: match due {
                    Some(d) => Some(d@),
                    None => None,
                },
                tag: match tag {
                    Some(t) => Some(views(t@)),
                    None => None,
                },
            },
            MenuAction::Say(m) => MenuActionView::Say(m@),
            MenuAction::Quit(m) => MenuActionView::Quit(m@),
        }
    }
}

/// The names of listed tasks, in order.
pub open spec fn names_of(l: Seq<InfoView>) -> Seq<Seq<char>> {
    l.map_values(|i: InfoView| i.name)
}

/// The names of the open tasks of `s`, as the open listing shows them.
pub open spec fn open_names(s: Seq<crate::domain::ItemView>) -> Seq<Seq<char>> {
    names_of(listing(s, Status::Todo))
}

/// The names of the finished tasks of `s`, as the finished listing shows
/// them.
pub open spec fn done_names(s: Seq<crate::domain::ItemView>) -> Seq<Seq<char>> {
    names_of(listing(s, Status::Done))
}

/// The names of all tasks of `s`: the open ones, then the finished ones.
pub open spec fn all_names(s: Seq<crate::domain::ItemView>) -> Seq<Seq<char>> {
    open_names(s) + done_names(s)
}

/// An answer that may be left empty: nothing where it is empty.
pub open spec fn given(t: Seq<char>) -> Option<Seq<char>> {
    if t.len() == 0 {
        None
    } else {
        Some(t)
    }
}

/// An answer that may be left empty, as the one argument of a command.
pub open spec fn given_one(t: Seq<char>) -> Option<Seq<Seq<char>>> {
    if t.len() == 0 {
        None
    } else {
        Some(seq![t])
    }
}

/// Running `command` with the arguments `key` and nothing else.
pub open spec fn run_with(command: Seq<char>, key: Option<Seq<Seq<char>>>) -> MenuActionView {
    MenuActionView::Run { command, key, status: None, priority: None, due: None, tag: None }
}

/// What marking a task picked from `names` does: a message where there is
/// nothing to pick, else running `command` on the picked name.
pub open spec fn mark_action(names: Seq<Seq<char>>, pick: Option<usize>, command: Seq<char>) -> MenuActionView {
    if names.len() == 0 {
        MenuActionView::Say("\nNo todo tasks to mark as done.\n"@)
    } else {
        run_with(command, Some(seq![names[pick.unwrap() as int]]))
    }
}

/// The status filter at place `filter` of the menu: all, open, finished.
pub open spec fn filter_status(filter: usize) -> Option<Status> {
    if filter == 1 {
        Some(Status::Todo)
    } else if filter == 2 {
        Some(Status::Done)
    } else {
        None
    }
}

/// What the menu does with the answered entry `c`, for the tasks `s`.
pub open spec fn menu_action(s: Seq<crate::domain::ItemView>, c: MenuChoiceView) -> MenuActionView {
    match c {
        MenuChoiceView::Add { name, priority, due } => MenuActionView::Run {
            command: "add"@,
            key: Some(seq![name]),
            status: None,
            priority,
            due: given(due),
            tag: None,
        },
        MenuChoiceView::List { filter, tags } => MenuActionView::Run {
            command: "list"@,
            key: None,
            status: filter_status(filter),
            priority: None,
            due: None,
            tag: given_one(tags),
        },
        MenuChoiceView::MarkDone { pick } => mark_action(open_names(s), pick, "mark-done"@),
        MenuChoiceView::MarkTodo { pick } => mark_action(done_names(s), pick, "mark-todo"@),
        MenuChoiceView::Edit { pick, new_name } => run_with(
            "edit"@,
            Some(seq![all_names(s)[pick as int], new_name]),
        ),
        MenuChoiceView::Remove { pick, confirmed } => if confirmed {
            run_with("remove"@, Some(seq![all_names(s)[pick as int]]))
        } else {
            MenuActionView::Say("\n✓ Delete cancelled\n"@)
        },
        MenuChoiceView::Count => run_with("count"@, None),
        MenuChoiceView::Search { keyword } => run_with("find"@, Some(seq![keyword])),
        MenuChoiceView::Export { file } => run_with("export"@, given_one(file)),
        MenuChoiceView::Undo { confirmed } => if confirmed {
            run_with("undo"@, None)
        } else {
            MenuActionView::Say("\n✓ Undo cancelled\n"@)
        },
        MenuChoiceView::Exit => MenuActionView::Quit("\nGoodbye! 👋\n"@),
    }
}

/// A pick names a task of the listing that the entry offers (where that
/// listing is not empty).
pub open spec fn choice_fits(s: Seq<crate::domain::ItemView>, c: MenuChoiceView) -> bool {
    match c {
        MenuChoiceView::MarkDone { pick } => open_names(s).len() > 0 ==> (pick matches Some(i) && i
            < open_names(s).len()),
        MenuChoiceView::MarkTodo { pick } => done_names(s).len() > 0 ==> (pick matches Some(i) && i
            < done_names(s).len()),
        MenuChoiceView::Edit { pick, new_name } => pick < all_names(s).len(),
        MenuChoiceView::Remove { pick, confirmed } => pick < all_names(s).len(),
        _ => true,
    }
}

/// The names of listed tasks, appended to `out`.
fn push_names(out: &mut Vec<String>, l: &Vec<ListInfo>)
    ensures
        views(final(out)@) == views(old(out)@) + names_of(info_views(l@)),
{
    let ghost start = views(out@);
    let mut i: usize = 0;
    while i < l.len()
        invariant
            0 <= i <= l.len(),
            views(out@) == start + names_of(info_views(l@)).take(i as int),
        decreases l.len() - i,
    {
        let ghost before = views(out@);
        out.push(l[i].name.clone());
        assert(views(out@) =~= before.push(l@[i as int].name@));
        assert(names_of(info_views(l@)).take(i + 1) =~= names_of(info_views(l@)).take(i as int).push(
            l@[i as int].name@,
        ));
        i = i + 1;
    }
    assert(names_of(info_views(l@)).take(l.len() as int) =~= names_of(info_views(l@)));
}

/// One argument for a command, where the answer is not empty.
fn one_given(t: String) -> (r: Option<Vec<String>>)
    ensures
        match r {
            Some(v) => given_one(t@) == Some(views(v@)),
            None => given_one(t@) is None,
        },
{
    if t.as_str().is_empty() {
        None
    } else {
        let ghost tv = t@;
        let v = vec![t];
        assert(views(v@) =~= seq![tv]);
        Some(v)
    }
}

/// Running `command` with no argument but `key`.
fn run_plain(command: &str, key: Option<Vec<String>>) -> (r: MenuAction)
    ensures
        r@ == run_with(
            command@,
            match key {
                Some(k) => Some(views(k@)),
                None => None,
            },
        ),
{
    MenuAction::Run { command: owned(command), key, status: None, priority: None, due: None, tag: None }
}

/// The one-name argument list `[name]`.
fn single(name: String) -> (r: Vec<String>)
    ensures
        views(r@) == seq![name@],
{
    let ghost nv = name@;
    let v = vec![name];
    assert(views(v@) =~= seq![nv]);
    v
}

/// Marking a task picked from `names` with `command`.
fn mark_step(names: Vec<String>, pick: Option<usize>, command: &str) -> (r: MenuAction)
    requires
        names.len() > 0 ==> (pick matches Some(i) && i < names.len()),
    ensures
        r@ == mark_action(views(names@), pick, command@),
{
    if names.len() == 0 {
        MenuAction::Say(owned("\nNo todo tasks to mark as done.\n"))
    } else {
        let i = pick.unwrap();
        let n = names[i].clone();
        run_plain(command, Some(single(n)))
    }
}

/// What the menu does with the answered entry `choice`, for the list
/// `todo`: the command to run (with the names of picked tasks taken from
/// the open listing, the finished listing, or both, in that order), or the
/// message to show.
pub fn menu_step(todo: &TodoList, choice: MenuChoice) -> (r: MenuAction)
    requires
        choice_fits(todo.entries(), choice@),
    ensures
        r@ == menu_action(todo.entries(), choice@),
{
    let (open, done) = todo.list();
    let mut open_list: Vec<String> = Vec::new();
    push_names(&mut open_list, &open);
    let mut done_list: Vec<String> = Vec::new();
    push_names(&mut done_list, &done);
    let mut every: Vec<String> = Vec::new();
    push_names(&mut every, &open);
    push_names(&mut every, &done);
    assert(views(open_list@) =~= open_names(todo.entries()));
    assert(views(done_list@) =~= done_names(todo.entries()));
    assert(views(every@) =~= all_names(todo.entries()));
    match choice {
        MenuChoice::Add { name, priority, due } => {
            let due_given = if due.as_str().is_empty() {
                None
            } else {
                Some(due)
            };
            MenuAction::Run {
                command: owned("add"),
                key: Some(single(name)),
                status: None,
                priority,
                due: due_given,
                tag: None,
            }
        },
        MenuChoice::List { filter, tags } => {
            let status = if filter == 1 {
                Some(Status::Todo)
            } else if filter == 2 {
                Some(Status::Done)
            } else {
                None
            };
            MenuAction::Run {
                command: owned("list"),
                key: None,
                status,
                priority: None,
                due: None,
                tag: one_given(tags),
            }
        },
        MenuChoice::MarkDone { pick } => mark_step(open_list, pick, "mark-done"),
        MenuChoice::MarkTodo { pick } => mark_step(done_list, pick, "mark-todo"),
        MenuChoice::Edit { pick, new_name } => {
            let old_name = every[pick].clone();
            let ghost ov = old_name@;
            let ghost nv = new_name@;
            let key = vec![old_name, new_name];
            assert(views(key@) =~= seq![ov, nv]);
            run_plain("edit", Some(key))
        },
        MenuChoice::Remove { pick, confirmed } => {
            if confirmed {
                let n = every[pick].clone();
                run_plain("remove", Some(single(n)))
            } else {
                MenuAction::Say(owned("\n✓ Delete cancelled\n"))
            }
        },
        MenuChoice::Count => run_plain("count", None),
        MenuChoice::Search { keyword } => run_plain("find", Some(single(keyword))),
        MenuChoice::Export { file } => run_plain("export", one_given(file)),
        MenuChoice::Undo { confirmed } => {
            if confirmed {
                run_plain("undo", None)
            } else {
                MenuAction::Say(owned("\n✓ Undo cancelled\n"))
            }
        },
        MenuChoice::Exit => MenuAction::Quit(owned("\nGoodbye! 👋\n")),
    }
}

} // verus!
