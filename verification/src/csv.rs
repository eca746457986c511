//! Writing tasks as comma-separated lines.

use vstd::prelude::*;
use crate::calendar::{date_chars, date_text};
use crate::domain::{ItemView, Priority, Status, TodoItem};
use crate::text::{char_views, chars_of, join, join_chars, push_all, sort_texts, sorted_texts, views};

verus! {

/// The first line of the table.
pub open spec fn csv_header() -> Seq<char> {
    "name,status,priority,due_date,tags\n"@
}

/// `s` with every `"` doubled.
pub open spec fn escape_quotes(s: Seq<char>) -> Seq<char>
    decreases s.len(),
{
    if s.len() == 0 {
        seq![]
    } else {
        escape_quotes(s.drop_last()) + if s.last() == '"' {
            seq!['"', '"']
        } else {
            seq![s.last()]
        }
    }
}

/// A status in lower case.
pub open spec fn status_word(st: Status) -> Seq<char> {
    match st {
        Status::Todo => "todo"@,
        Status::Done => "done"@,
    }
}

/// A priority in lower case.
pub open spec fn priority_word(p: Priority) -> Seq<char> {
    match p {
        Priority::Low => "low"@,
        Priority::Medium => "medium"@,
        Priority::High => "high"@,
    }
}

/// The tags in order, separated by `;`.
pub open spec fn csv_tags(tags: Seq<Seq<char>>) -> Seq<char> {
    if tags.len() == 0 {
        seq![]
    } else {
        join(sorted_texts(tags), seq![';'])
    }
}

/// The line of a task: its name in double quotes with inner quotes doubled,
/// its status, priority, due date (empty if none) and tags.
pub open spec fn csv_line(it: ItemView) -> Seq<char> {
    "\""@ + escape_quotes(it.name) + "\","@ + status_word(it.status) + ","@ + priority_word(
        it.priority,
    ) + ","@ + match it.due_date {
        Some(d) => date_text(d),
        None => seq![],
    } + ","@ + csv_tags(it.tags) + "\n"@
}

/// The lines of the tasks of `s`, in order.
pub open spec fn csv_rows(s: Seq<ItemView>) -> Seq<char>
    decreases s.len(),
{
    if s.len() == 0 {
        seq![]
    } else {
        csv_rows(s.drop_last()) + csv_line(s.last())
    }
}

/// The whole table: the header, then one line per task.
pub open spec fn csv_text(s: Seq<ItemView>) -> Seq<char> {
    csv_header() + csv_rows(s)
}

fn escape_quotes_chars(s: &Vec<char>) -> (r: Vec<char>)
    ensures
        r@ == escape_quotes(s@),
{
    let mut out: Vec<char> = Vec::new();
    let mut i: usize = 0;
    while i < s.len()
        invariant
            0 <= i <= s.len(),
            out@ == escape_quotes(s@.take(i as int)),
        decreases s.len() - i,
    {
        assert(s@.take(i + 1).drop_last() =~= s@.take(i as int));
        let ghost before = out@;
        if s[i] == '"' {
            out.push('"');
            out.push('"');
            assert(out@ =~= before + seq!['"', '"']);
        } else {
            out.push(s[i]);
            assert(out@ =~= before + seq![s@[i as int]]);
        }
        i = i + 1;
    }
    assert(s@.take(s.len() as int) =~= s@);
    out
}

/// A status in lower case.
pub fn status_chars(st: Status) -> (r: Vec<char>)
    ensures
        r@ == status_word(st),
{
    match st {
        Status::Todo => chars_of("todo"),
        Status::Done => chars_of("done"),
    }
}

/// A priority in lower case.
pub fn priority_chars(p: Priority) -> (r: Vec<char>)
    ensures
        r@ == priority_word(p),
{
    match p {
        Priority::Low => chars_of("low"),
        Priority::Medium => chars_of("medium"),
        Priority::High => chars_of("high"),
    }
}

/// The characters of each string.
pub fn char_lists(v: &Vec<String>) -> (r: Vec<Vec<char>>)
    ensures
        char_views(r@) == views(v@),
{
    let mut out: Vec<Vec<char>> = Vec::new();
    let mut i: usize = 0;
    while i < v.len()
        invariant
            0 <= i <= v.len(),
            char_views(out@) == views(v@).take(i as int),
        decreases v.len() - i,
    {
        let ghost before = char_views(out@);
        out.push(chars_of(v[i].as_str()));
        assert(char_views(out@) =~= before.push(views(v@)[i as int]));
        assert(views(v@).take(i + 1) =~= views(v@).take(i as int).push(views(v@)[i as int]));
        i = i + 1;
    }
    assert(views(v@).take(v.len() as int) =~= views(v@));
    out
}

/// Appends the line of `item` to `out`.
pub fn push_csv_line(out: &mut Vec<char>, item: &TodoItem)
    ensures
        final(out)@ == old(out)@ + csv_line(item@),
{
    push_all(out, &chars_of("\""));
    let name = chars_of(item.name.as_str());
    push_all(out, &escape_quotes_chars(&name));
    push_all(out, &chars_of("\","));
    push_all(out, &status_chars(item.status));
    push_all(out, &chars_of(","));
    push_all(out, &priority_chars(item.priority));
    push_all(out, &chars_of(","));
    match &item.due_date {
        Some(d) => push_all(out, &date_chars(d)),
        None => {},
    }
    push_all(out, &chars_of(","));
    if item.tags.len() > 0 {
        let tags = char_lists(&item.tags);
        let sorted = sort_texts(&tags);
        let sep: Vec<char> = vec![';'];
        assert(sep@ =~= seq![';']);
        push_all(out, &join_chars(&sorted, &sep));
    }
    push_all(out, &chars_of("\n"));
    assert(final(out)@ =~= old(out)@ + csv_line(item@));
}

} // verus!
