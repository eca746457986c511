//! Carrying out one command of the command line on a task list.

use vstd::prelude::*;
use crate::calendar::parsed_date;
use crate::csv::{char_lists, csv_text};
use crate::domain::{DueDate, InfoView, ItemView, copy_info, info_of, ListInfo, Priority, Status, UndoView, info_views};
use crate::text::{
    char_views, chars_of, comma_pieces, concat2, concat3, contains_chars, owned, same_chars, split_commas,
    trim, trim_chars, views,
};
use crate::todo_list::{
    TodoList, opt_view, add_done, add_outcome, edit_outcome, listing, mark_outcome, matching, remove_outcome,
    undo_outcome, with_status, left_by_clear, removed_by_clear,
};

verus! {

/// What a command did, to be shown to the user.
#[derive(Debug, PartialEq)]
pub enum CommandOutcome {
    Created,
    Updated,
    Listed { todo_items: Vec<ListInfo>, done_items: Vec<ListInfo> },
    Counted { total: usize, total_todo: usize, total_done: usize },
    Exported,
    Undone,
}

/// The mathematical value of an outcome.
pub enum OutcomeView {
    Created,
    Updated,
    Listed { todo_items: Seq<InfoView>, done_items: Seq<InfoView> },
    Counted { total: nat, total_todo: nat, total_done: nat },
    Exported,
    Undone,
}

impl View for CommandOutcome {
    type V = OutcomeView;

    open spec fn view(&self) -> OutcomeView {
        match self {
            CommandOutcome::Created => OutcomeView::Created,
            CommandOutcome::Updated => OutcomeView::Updated,
            CommandOutcome::Listed { todo_items, done_items } => OutcomeView::Listed {
                todo_items: info_views(todo_items@),
                done_items: info_views(done_items@),
            },
            CommandOutcome::Counted { total, total_todo, total_done } => OutcomeView::Counted {
                total: *total as nat,
                total_todo: *total_todo as nat,
                total_done: *total_done as nat,
            },
            CommandOutcome::Exported => OutcomeView::Exported,
            CommandOutcome::Undone => OutcomeView::Undone,
        }
    }
}

/// What the caller is to do after a command, beyond showing its outcome.
#[derive(Debug, PartialEq)]
pub enum Effect {
    /// Nothing more.
    Nothing,
    /// Store the list in the file `path`.
    Save { path: String },
    /// Write the table `csv` to the file `target`, or show it where there is
    /// no target.
    Export { target: Option<String>, csv: String },
}

/// The mathematical value of an effect.
pub enum EffectView {
    Nothing,
    Save { path: Seq<char> },
    Export { target: Option<Seq<char>>, csv: Seq<char> },
}

impl View for Effect {
    type V = EffectView;

    open spec fn view(&self) -> EffectView {
        match self {
            Effect::Nothing => EffectView::Nothing,
            Effect::Save { path } => EffectView::Save { path: path@ },
            Effect::Export { target, csv } => EffectView::Export {
                target: match target {
                    Some(t) => Some(t@),
                    None => None,
                },
                csv: csv@,
            },
        }
    }
}

/// The reply to a command: its outcome or the error to show, and what the
/// caller is to do next.
#[derive(Debug)]
pub struct Reply {
    pub result: Result<CommandOutcome, String>,
    pub effect: Effect,
}

/// The mathematical value of a reply.
pub struct ReplyView {
    pub result: Result<OutcomeView, Seq<char>>,
    pub effect: EffectView,
}

impl View for Reply {
    type V = ReplyView;

    open spec fn view(&self) -> ReplyView {
        ReplyView {
            result: match self.result {
                Ok(o) => Ok(o@),
                Err(e) => Err(e@),
            },
            effect: self.effect@,
        }
    }
}

/// A failed command: the message, and nothing more to do.
pub open spec fn failed(msg: Seq<char>) -> ReplyView {
    ReplyView { result: Err(msg), effect: EffectView::Nothing }
}

/// A command that changed the list: its outcome, and the list to be stored
/// in `path`.
pub open spec fn stored(o: OutcomeView, path: Seq<char>) -> ReplyView {
    ReplyView { result: Ok(o), effect: EffectView::Save { path } }
}

/// A command that only read the list: its outcome, nothing more to do.
pub open spec fn answered(o: OutcomeView) -> ReplyView {
    ReplyView { result: Ok(o), effect: EffectView::Nothing }
}

/// The first of the keys given, if any.
pub open spec fn first_key(key: Option<Seq<Seq<char>>>) -> Option<Seq<char>> {
    match key {
        Some(ks) => if ks.len() > 0 {
            Some(ks[0])
        } else {
            None
        },
        None => None,
    }
}

/// The second of the keys given, if any.
pub open spec fn second_key(key: Option<Seq<Seq<char>>>) -> Option<Seq<char>> {
    match key {
        Some(ks) => if ks.len() > 1 {
            Some(ks[1])
        } else {
            None
        },
        None => None,
    }
}

/// The views of an optional list of strings.
pub open spec fn opt_views(v: Option<Vec<String>>) -> Option<Seq<Seq<char>>> {
    match v {
        Some(v) => Some(views(v@)),
        None => None,
    }
}

/// The trimmed pieces of `ps` that are not empty.
pub open spec fn nonempty_trimmed(ps: Seq<Seq<char>>) -> Seq<Seq<char>>
    decreases ps.len(),
{
    if ps.len() == 0 {
        seq![]
    } else if trim(ps.last()).len() > 0 {
        nonempty_trimmed(ps.drop_last()).push(trim(ps.last()))
    } else {
        nonempty_trimmed(ps.drop_last())
    }
}

/// The tag filters of a listing: each given text split at commas, each
/// piece trimmed, the empty ones dropped.
pub open spec fn filter_words(tags: Seq<Seq<char>>) -> Seq<Seq<char>>
    decreases tags.len(),
{
    if tags.len() == 0 {
        seq![]
    } else {
        filter_words(tags.drop_last()) + nonempty_trimmed(comma_pieces(tags.last()))
    }
}

/// The tag filters other than `none`.
pub open spec fn named_filters(fs: Seq<Seq<char>>) -> Seq<Seq<char>>
    decreases fs.len(),
{
    if fs.len() == 0 {
        seq![]
    } else if fs.last() == "none"@ {
        named_filters(fs.drop_last())
    } else {
        named_filters(fs.drop_last()).push(fs.last())
    }
}

/// Whether a listing filtered by the named tags `named` (and by the lack
/// of tags where `untagged`) keeps `it`: with no filter every task is kept;
/// otherwise an untagged task where `none` was asked for, or a task with one
/// of the named tags.
pub open spec fn kept_by(it: InfoView, untagged: bool, named: Seq<Seq<char>>) -> bool {
    ||| !untagged && named.len() == 0
    ||| untagged && it.tags.len() == 0
    ||| exists|j: int| 0 <= j < named.len() && it.tags.contains(#[trigger] named[j])
}

/// The tasks of `s` that the filter keeps, in order.
pub open spec fn tag_filtered(s: Seq<InfoView>, untagged: bool, named: Seq<Seq<char>>) -> Seq<InfoView>
    decreases s.len(),
{
    if s.len() == 0 {
        seq![]
    } else if kept_by(s.last(), untagged, named) {
        tag_filtered(s.drop_last(), untagged, named).push(s.last())
    } else {
        tag_filtered(s.drop_last(), untagged, named)
    }
}

/// The listing of `list` with status `st`, filtered by the tags given.
pub open spec fn filtered_listing(list: TodoList, st: Status, tag: Option<Seq<Seq<char>>>) -> Seq<InfoView> {
    let fs = match tag {
        Some(t) => filter_words(t),
        None => seq![],
    };
    tag_filtered(listing(list.entries(), st), fs.contains("none"@), named_filters(fs))
}

/// The day read from an optional due date.
pub open spec fn parsed_of(due: Option<Seq<char>>) -> Option<DueDate> {
    match due {
        Some(s) => parsed_date(s),
        None => None,
    }
}

/// The status that a marking command gives.
pub open spec fn marked_as(command: Seq<char>) -> Status {
    if command == "mark-done"@ {
        Status::Done
    } else {
        Status::Todo
    }
}

/// What the command `command` with the given arguments does to the list
/// `old`, giving `new` and the reply `reply`.
pub open spec fn handled(
    old: TodoList,
    new: TodoList,
    command: Seq<char>,
    key: Option<Seq<Seq<char>>>,
    status: Option<Status>,
    priority: Option<Priority>,
    due: Option<Seq<char>>,
    tag: Option<Seq<Seq<char>>>,
    path: Seq<char>,
    reply: ReplyView,
) -> bool {
    if tag is Some && command != "list"@ {
        &&& reply == failed(
            "Error: --tag can only be used with the 'list' command, not '"@ + command + "'"@,
        )
        &&& new == old
    } else if command == "add"@ {
        match first_key(key) {
            None => reply == failed("Key cannot be empty"@) && new == old,
            Some(task) => exists|r: Result<(), String>|
                #[trigger] add_done(old, new, task, priority, due, r) && match r {
                    Ok(_) => reply == stored(OutcomeView::Created, path),
                    Err(e) => reply == failed(e@),
                },
        }
    } else if command == "remove"@ {
        match first_key(key) {
            None => reply == failed("Key cannot be empty"@) && new == old,
            Some(k) => exists|r: Result<String, String>|
                #[trigger] remove_outcome(old, new, k, r) && match r {
                    Ok(_) => reply == stored(OutcomeView::Updated, path),
                    Err(e) => reply == failed("Invalid key "@ + e@),
                },
        }
    } else if command == "mark-done"@ || command == "mark-todo"@ {
        match first_key(key) {
            None => reply == failed("Key cannot be empty"@) && new == old,
            Some(k) => exists|r: Result<String, String>|
                #[trigger] mark_outcome(old, new, k, marked_as(command), r) && match r {
                    Ok(_) => reply == stored(OutcomeView::Updated, path),
                    Err(e) => reply == failed("Invalid key "@ + e@),
                },
        }
    } else if command == "list"@ {
        &&& new == old
        &&& reply == answered(
            OutcomeView::Listed {
                todo_items: if status == Some(Status::Done) {
                    seq![]
                } else {
                    filtered_listing(old, Status::Todo, tag)
                },
                done_items: if status == Some(Status::Todo) {
                    seq![]
                } else {
                    filtered_listing(old, Status::Done, tag)
                },
            },
        )
    } else if command == "clear-all"@ || command == "clear-done"@ || command == "clear-todo"@ {
        let kept = if command == "clear-all"@ {
            None
        } else if command == "clear-done"@ {
            Some(Status::Todo)
        } else {
            Some(Status::Done)
        };
        let removed = removed_by_clear(old.entries(), kept);
        &&& new.entries() == left_by_clear(old.entries(), kept)
        &&& new.last_change() == if removed.len() > 0 {
            Some(UndoView::Clear { removed })
        } else {
            old.last_change()
        }
        &&& reply == stored(OutcomeView::Updated, path)
    } else if command == "edit"@ {
        if key is None {
            reply == failed("Key cannot be empty"@) && new == old
        } else if first_key(key) is None {
            reply == failed("Old key required"@) && new == old
        } else if second_key(key) is None {
            reply == failed("New key required"@) && new == old
        } else {
            exists|r: Result<String, String>|
                #[trigger] edit_outcome(old, new, first_key(key)->0, second_key(key)->0, r)
                    && match r {
                    Ok(_) => reply == stored(OutcomeView::Updated, path),
                    Err(e) => reply == failed("Edit failed: "@ + e@),
                }
        }
    } else if command == "count"@ {
        &&& new == old
        &&& reply == answered(
            OutcomeView::Counted {
                total: old.entries().len(),
                total_todo: with_status(old.entries(), Status::Todo).len(),
                total_done: with_status(old.entries(), Status::Done).len(),
            },
        )
    } else if command == "find"@ {
        &&& new == old
        &&& match first_key(key) {
            None => reply == failed("Search keyword cannot be empty"@),
            Some(k) => reply == answered(
                OutcomeView::Listed {
                    todo_items: matching(old.entries(), k, Status::Todo).map_values(
                        |it: ItemView| info_of(it),
                    ),
                    done_items: matching(old.entries(), k, Status::Done).map_values(
                        |it: ItemView| info_of(it),
                    ),
                },
            ),
        }
    } else if command == "export"@ {
        &&& new == old
        &&& reply == ReplyView {
            result: Ok(OutcomeView::Exported),
            effect: EffectView::Export { target: first_key(key), csv: csv_text(old.entries()) },
        }
    } else if command == "undo"@ {
        exists|r: Result<(), String>|
            #[trigger] undo_outcome(old, new, r) && match r {
                Ok(_) => reply == stored(OutcomeView::Undone, path),
                Err(e) => reply == failed(e@),
            }
    } else {
        &&& new == old
        &&& reply == failed("Command "@ + command + " not recognized"@)
    }
}

fn is_word(cmd: &Vec<char>, word: &str) -> (r: bool)
    ensures
        r == (cmd@ == word@),
{
    same_chars(cmd, &chars_of(word))
}

fn first_of(key: &Option<Vec<String>>) -> (r: Option<String>)
    ensures
        opt_view(r) == first_key(opt_views(*key)),
{
    match key {
        Some(ks) => if ks.len() > 0 {
            Some(ks[0].clone())
        } else {
            None
        },
        None => None,
    }
}

fn second_of(key: &Option<Vec<String>>) -> (r: Option<String>)
    ensures
        opt_view(r) == second_key(opt_views(*key)),
{
    match key {
        Some(ks) => if ks.len() > 1 {
            Some(ks[1].clone())
        } else {
            None
        },
        None => None,
    }
}

fn nonempty_trimmed_of(ps: &Vec<Vec<char>>) -> (r: Vec<Vec<char>>)
    ensures
        char_views(r@) == nonempty_trimmed(char_views(ps@)),
{
    let mut out: Vec<Vec<char>> = Vec::new();
    let mut i: usize = 0;
    while i < ps.len()
        invariant
            0 <= i <= ps.len(),
            char_views(out@) == nonempty_trimmed(char_views(ps@).take(i as int)),
        decreases ps.len() - i,
    {
        assert(char_views(ps@).take(i + 1).drop_last() =~= char_views(ps@).take(i as int));
        assert(char_views(ps@).take(i + 1).last() == ps@[i as int]@);
        let t = trim_chars(&ps[i]);
        if t.len() > 0 {
            let ghost before = char_views(out@);
            out.push(t);
            assert(char_views(out@) =~= before.push(trim(ps@[i as int]@)));
        }
        i = i + 1;
    }
    assert(char_views(ps@).take(ps.len() as int) =~= char_views(ps@));
    out
}

/// The tag filters of a listing.
fn filters_of(tag: &Option<Vec<String>>) -> (r: Vec<Vec<char>>)
    ensures
        char_views(r@) == match opt_views(*tag) {
            Some(t) => filter_words(t),
            None => seq![],
        },
{
    let mut out: Vec<Vec<char>> = Vec::new();
    match tag {
        None => {
            assert(char_views(out@) =~= Seq::<Seq<char>>::empty());
        },
        Some(ts) => {
            let mut i: usize = 0;
            while i < ts.len()
                invariant
                    0 <= i <= ts.len(),
                    char_views(out@) == filter_words(views(ts@).take(i as int)),
                decreases ts.len() - i,
            {
                assert(views(ts@).take(i + 1).drop_last() =~= views(ts@).take(i as int));
                assert(views(ts@).take(i + 1).last() == ts@[i as int]@);
                let pieces = split_commas(&chars_of(ts[i].as_str()));
                let kept = nonempty_trimmed_of(&pieces);
                let mut k: usize = 0;
                let ghost before = char_views(out@);
                while k < kept.len()
                    invariant
                        0 <= k <= kept.len(),
                        char_views(out@) == before + char_views(kept@).take(k as int),
                    decreases kept.len() - k,
                {
                    let c = kept[k].clone();
                    assert(c@ =~= kept@[k as int]@);
                    let ghost prior = char_views(out@);
                    out.push(c);
                    assert(char_views(out@) =~= prior.push(c@));
                    assert(char_views(kept@).take(k + 1) =~= char_views(kept@).take(k as int).push(
                        kept@[k as int]@,
                    ));
                    k = k + 1;
                }
                assert(char_views(kept@).take(kept.len() as int) =~= char_views(kept@));
                i = i + 1;
            }
            assert(views(ts@).take(ts.len() as int) =~= views(ts@));
        },
    }
    out
}

fn named_of(fs: &Vec<Vec<char>>) -> (r: Vec<Vec<char>>)
    ensures
        char_views(r@) == named_filters(char_views(fs@)),
{
    let none = chars_of("none");
    let mut out: Vec<Vec<char>> = Vec::new();
    let mut i: usize = 0;
    while i < fs.len()
        invariant
            0 <= i <= fs.len(),
            none@ == "none"@,
            char_views(out@) == named_filters(char_views(fs@).take(i as int)),
        decreases fs.len() - i,
    {
        assert(char_views(fs@).take(i + 1).drop_last() =~= char_views(fs@).take(i as int));
        assert(char_views(fs@).take(i + 1).last() == fs@[i as int]@);
        if !same_chars(&fs[i], &none) {
            let ghost before = char_views(out@);
            let c = fs[i].clone();
            assert(c@ =~= fs@[i as int]@);
            out.push(c);
            assert(char_views(out@) =~= before.push(fs@[i as int]@));
        }
        i = i + 1;
    }
    assert(char_views(fs@).take(fs.len() as int) =~= char_views(fs@));
    out
}

fn keeps(info: &ListInfo, untagged: bool, named: &Vec<Vec<char>>) -> (r: bool)
    ensures
        r == kept_by(info@, untagged, char_views(named@)),
{
    if !untagged && named.len() == 0 {
        return true;
    }
    if untagged && info.tags.len() == 0 {
        return true;
    }
    let tags = char_lists(&info.tags);
    let mut j: usize = 0;
    while j < named.len()
        invariant
            0 <= j <= named.len(),
            char_views(tags@) == info@.tags,
            forall|m: int| 0 <= m < j ==> !info@.tags.contains(#[trigger] char_views(named@)[m]),
        decreases named.len() - j,
    {
        if contains_chars(&tags, &named[j]) {
            assert(info@.tags.contains(char_views(named@)[j as int]));
            return true;
        }
        j = j + 1;
    }
    false
}

fn filter_listing(items: &Vec<ListInfo>, untagged: bool, named: &Vec<Vec<char>>) -> (r: Vec<ListInfo>)
    ensures
        info_views(r@) == tag_filtered(info_views(items@), untagged, char_views(named@)),
{
    let ghost s = info_views(items@);
    let mut out: Vec<ListInfo> = Vec::new();
    let mut i: usize = 0;
    while i < items.len()
        invariant
            0 <= i <= items.len(),
            s == info_views(items@),
            info_views(out@) == tag_filtered(s.take(i as int), untagged, char_views(named@)),
        decreases items.len() - i,
    {
        assert(s.take(i + 1).drop_last() =~= s.take(i as int));
        assert(s.take(i + 1).last() == items@[i as int]@);
        if keeps(&items[i], untagged, named) {
            let ghost before = info_views(out@);
            out.push(copy_info(&items[i]));
            assert(info_views(out@) =~= before.push(items@[i as int]@));
        }
        i = i + 1;
    }
    assert(s.take(items.len() as int) =~= s);
    out
}

fn failure(msg: String) -> (r: Reply)
    ensures
        r@ == failed(msg@),
{
    Reply { result: Err(msg), effect: Effect::Nothing }
}

fn saved(o: CommandOutcome, path: &str) -> (r: Reply)
    ensures
        r@ == stored(o@, path@),
{
    Reply { result: Ok(o), effect: Effect::Save { path: owned(path) } }
}

fn answer(o: CommandOutcome) -> (r: Reply)
    ensures
        r@ == answered(o@),
{
    Reply { result: Ok(o), effect: Effect::Nothing }
}

/// Carries out `command` on `todo` with the arguments of the command line:
/// the keys given, a status and tags to filter a listing by, and a priority
/// and due date for a new task. Says in its reply what came of it and
/// whether the list is to be stored in `path` or a table written out.
pub fn handle_command(
    todo: &mut TodoList,
    command: &str,
    key: Option<Vec<String>>,
    status: Option<Status>,
    priority: Option<Priority>,
    due: Option<String>,
    tag: Option<Vec<String>>,
    path: &str,
) -> (r: Reply)
    ensures
        handled(
            *old(todo),
            *final(todo),
            command@,
            opt_views(key),
            status,
            priority,
            opt_view(due),
            opt_views(tag),
            path@,
            r@,
        ),
{
    let cmd = chars_of(command);
    proof {
        use_type_invariant(&*todo);
        reveal_strlit("list");
        reveal_strlit("add");
        reveal_strlit("remove");
        reveal_strlit("mark-done");
        reveal_strlit("mark-todo");
        reveal_strlit("clear-all");
        reveal_strlit("clear-done");
        reveal_strlit("clear-todo");
        reveal_strlit("edit");
        reveal_strlit("count");
        reveal_strlit("find");
        reveal_strlit("export");
        reveal_strlit("undo");
    }
    if tag.is_some() && !is_word(&cmd, "list") {
        return failure(
            concat3("Error: --tag can only be used with the 'list' command, not '", command, "'"),
        );
    }
    if is_word(&cmd, "add") {
        match first_of(&key) {
            None => failure(owned("Key cannot be empty")),
            Some(task) => {
                let r = todo.add(task, priority, due);
                match r {
                    Ok(_) => saved(CommandOutcome::Created, path),
                    Err(e) => failure(e),
                }
            },
        }
    } else if is_word(&cmd, "remove") {
        match first_of(&key) {
            None => failure(owned("Key cannot be empty")),
            Some(k) => {
                let r = todo.remove(k);
                match r {
                    Ok(_) => saved(CommandOutcome::Updated, path),
                    Err(e) => failure(concat2("Invalid key ", e.as_str())),
                }
            },
        }
    } else if is_word(&cmd, "mark-done") || is_word(&cmd, "mark-todo") {
        let value = if is_word(&cmd, "mark-done") {
            Status::Done
        } else {
            Status::Todo
        };
        match first_of(&key) {
            None => failure(owned("Key cannot be empty")),
            Some(k) => {
                let r = todo.mark(k, value);
                match r {
                    Ok(_) => saved(CommandOutcome::Updated, path),
                    Err(e) => failure(concat2("Invalid key ", e.as_str())),
                }
            },
        }
    } else if is_word(&cmd, "list") {
        let (todo_all, done_all) = todo.list();
        let fs = filters_of(&tag);
        let untagged = contains_chars(&fs, &chars_of("none"));
        let named = named_of(&fs);
        let todo_items = match status {
            Some(Status::Done) => Vec::new(),
            _ => filter_listing(&todo_all, untagged, &named),
        };
        let done_items = match status {
            Some(Status::Todo) => Vec::new(),
            _ => filter_listing(&done_all, untagged, &named),
        };
        proof {
            if status == Some(Status::Done) {
                assert(info_views(todo_items@) =~= Seq::<InfoView>::empty());
            }
            if status == Some(Status::Todo) {
                assert(info_views(done_items@) =~= Seq::<InfoView>::empty());
            }
        }
        answer(CommandOutcome::Listed { todo_items, done_items })
    } else if is_word(&cmd, "clear-all") {
        todo.clear_all();
        saved(CommandOutcome::Updated, path)
    } else if is_word(&cmd, "clear-done") {
        todo.clear_done();
        saved(CommandOutcome::Updated, path)
    } else if is_word(&cmd, "clear-todo") {
        todo.clear_todo();
        saved(CommandOutcome::Updated, path)
    } else if is_word(&cmd, "edit") {
        if key.is_none() {
            return failure(owned("Key cannot be empty"));
        }
        match first_of(&key) {
            None => failure(owned("Old key required")),
            Some(old_key) => match second_of(&key) {
                None => failure(owned("New key required")),
                Some(new_key) => {
                    let r = todo.edit(old_key, new_key);
                    assert(first_key(opt_views(key))->0 == old_key@);
                    assert(second_key(opt_views(key))->0 == new_key@);
                    match r {
                        Ok(_) => saved(CommandOutcome::Updated, path),
                        Err(e) => failure(concat2("Edit failed: ", e.as_str())),
                    }
                },
            },
        }
    } else if is_word(&cmd, "count") {
        let (total, total_todo, total_done) = todo.count();
        answer(CommandOutcome::Counted { total, total_todo, total_done })
    } else if is_word(&cmd, "find") {
        match first_of(&key) {
            None => failure(owned("Search keyword cannot be empty")),
            Some(k) => {
                let (todo_items, done_items) = todo.find(k.as_str());
                answer(CommandOutcome::Listed { todo_items, done_items })
            },
        }
    } else if is_word(&cmd, "export") {
        let target = first_of(&key);
        let csv = todo.to_csv();
        Reply { result: Ok(CommandOutcome::Exported), effect: Effect::Export { target, csv } }
    } else if is_word(&cmd, "undo") {
        let r = todo.undo();
        match r {
            Ok(_) => saved(CommandOutcome::Undone, path),
            Err(e) => failure(e),
        }
    } else {
        failure(concat3("Command ", command, " not recognized"))
    }
}

/// The status that the `--status` option names: `todo` or `done`.
pub fn parse_status_filter(text: &str) -> (r: Option<Status>)
    ensures
        r == if text@ == "todo"@ {
            Some(Status::Todo)
        } else if text@ == "done"@ {
            Some(Status::Done)
        } else {
            None
        },
{
    let t = chars_of(text);
    if is_word(&t, "todo") {
        Some(Status::Todo)
    } else if is_word(&t, "done") {
        Some(Status::Done)
    } else {
        None
    }
}

/// The priority that the `--priority` option names: `low`, `medium` or
/// `high`.
pub fn parse_priority(text: &str) -> (r: Option<Priority>)
    ensures
        r == if text@ == "low"@ {
            Some(Priority::Low)
        } else if text@ == "medium"@ {
            Some(Priority::Medium)
        } else if text@ == "high"@ {
            Some(Priority::High)
        } else {
            None
        },
{
    let t = chars_of(text);
    if is_word(&t, "low") {
        Some(Priority::Low)
    } else if is_word(&t, "medium") {
        Some(Priority::Medium)
    } else if is_word(&t, "high") {
        Some(Priority::High)
    } else {
        None
    }
}

/// The error for an export to a file that already exists.
pub fn export_conflict_message(filename: &str) -> (r: String)
    ensures
        r@ == "Error: File '"@ + filename@ + "' already exists"@,
{
    concat3("Error: File '", filename, "' already exists")
}

} // verus!
