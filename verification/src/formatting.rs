//! Showing listings, counts and outcomes as text for the terminal.

use vstd::prelude::*;
use crate::calendar::{date_chars, date_text, today};
use crate::commands::{CommandOutcome, OutcomeView};
use crate::domain::{DueDate, InfoView, ListInfo, Priority, info_views};
use crate::paint::{blue, bold, bright_yellow, cyan, green, painting, red, shown, yellow};
use crate::text::{
    char_views, chars_of, decimal, decimal_chars, join, join_chars, push_all, sort_texts,
    sorted_texts, string_of,
};

verus! {

/// The arrow that stands for a priority.
pub open spec fn priority_icon(p: Priority) -> Seq<char> {
    match p {
        Priority::High => "⬆️"@,
        Priority::Medium => "➡️"@,
        Priority::Low => "⬇️"@,
    }
}

/// The arrow that stands for a priority.
pub fn get_priority_icon(priority: Priority) -> (r: String)
    ensures
        r@ == priority_icon(priority),
{
    match priority {
        Priority::High => String::from_str("⬆️"),
        Priority::Medium => String::from_str("➡️"),
        Priority::Low => String::from_str("⬇️"),
    }
}

/// Whether a task due on `due` is overdue on `today`.
pub open spec fn overdue(due: Option<DueDate>, today: DueDate) -> bool {
    due matches Some(d) && d.precedes(today)
}

/// `r` is the start of a task's line on the day `today`: a red dot and a
/// bold red `OVERDUE:` for an overdue task, otherwise its priority arrow,
/// each followed by a space.
pub open spec fn prefix_on(r: Seq<char>, priority: Priority, due: Option<DueDate>, today: DueDate) -> bool {
    if overdue(due, today) {
        exists|a: Seq<char>, b: Seq<char>|
            #![trigger painting(a, "🔴"@, 31, false), painting(b, "OVERDUE:"@, 31, true)]
            painting(a, "🔴"@, 31, false) && painting(b, "OVERDUE:"@, 31, true) && r == a + " "@ + b
    } else {
        r == priority_icon(priority) + " "@
    }
}

/// A day that the clock can give: a calendar day not before 1969-12-31.
pub open spec fn clock_day(day: DueDate) -> bool {
    &&& 1 <= day.month <= 12
    &&& 1 <= day.day <= 31
    &&& !day.precedes(DueDate { year: 1969, month: 12, day: 31 })
}

/// `r` is the start of a task's line on some day that the clock can give.
pub open spec fn prefix_shown(r: Seq<char>, priority: Priority, due: Option<DueDate>) -> bool {
    exists|day: DueDate| clock_day(day) && #[trigger] prefix_on(r, priority, due, day)
}

/// The start of a task's line on the day `today`.
pub fn task_prefix_on(priority: Priority, due_date: Option<DueDate>, today: DueDate) -> (r: String)
    ensures
        prefix_on(r@, priority, due_date, today),
{
    let late = match due_date {
        Some(d) => d.is_before(&today),
        None => false,
    };
    if late {
        let a = shown(&red("🔴"));
        let b = shown(&bold(red("OVERDUE:")));
        let mut out = a.clone();
        out.append(" ");
        out.append(b.as_str());
        out
    } else {
        let mut out = get_priority_icon(priority);
        out.append(" ");
        out
    }
}

/// The start of a task's line: a red dot and a bold red `OVERDUE:` where
/// the task is due before today, otherwise its priority arrow.
pub fn get_task_prefix(priority: Priority, due_date: Option<DueDate>) -> (r: String)
    ensures
        prefix_shown(r@, priority, due_date),
{
    let day = today();
    let r = task_prefix_on(priority, due_date, day);
    r
}

/// `singular` with an `s` unless `count` is one.
pub open spec fn plural(count: nat, singular: Seq<char>) -> Seq<char> {
    if count != 1 {
        singular + "s"@
    } else {
        singular
    }
}

/// `singular` with an `s` unless `count` is one.
pub fn pluralize(count: usize, singular: &str) -> (r: String)
    ensures
        r@ == plural(count as nat, singular@),
{
    let mut s = String::from_str(singular);
    if count != 1 {
        s.append("s");
    }
    s
}

/// Each painted tag after a `#`.
pub open spec fn hashed(painted: Seq<Seq<char>>) -> Seq<Seq<char>> {
    painted.map_values(|t: Seq<char>| "#"@ + t)
}

/// The tags of a line, in order, in square brackets, or nothing.
pub open spec fn tags_info(painted: Seq<Seq<char>>) -> Seq<char> {
    if painted.len() == 0 {
        seq![]
    } else {
        " ["@ + join(sorted_texts(hashed(painted)), " "@) + "]"@
    }
}

/// The due date in parentheses, or nothing.
pub open spec fn due_info(due: Option<DueDate>) -> Seq<char> {
    match due {
        Some(d) => "(due: "@ + date_text(d) + ")"@,
        None => seq![],
    }
}

/// `r` is the line of the listed task `it` on the day `today`: ` * `, its
/// start, its name, its tags (each bright yellow, after a `#`) and its due
/// date.
pub open spec fn line_on(r: Seq<char>, it: InfoView, today: DueDate) -> bool {
    exists|prefix: Seq<char>, painted: Seq<Seq<char>>|
        #![trigger prefix_on(prefix, it.priority, it.due_date, today), tags_info(painted)]
        {
            &&& prefix_on(prefix, it.priority, it.due_date, today)
            &&& painted.len() == it.tags.len()
            &&& forall|i: int|
                0 <= i < painted.len() ==> painting(#[trigger] painted[i], it.tags[i], 93, false)
            &&& r == " * "@ + prefix + " "@ + it.name + tags_info(painted) + " "@ + due_info(
                it.due_date,
            ) + "\n"@
        }
}

/// The sequences of `lines` one after another.
pub open spec fn concat(lines: Seq<Seq<char>>) -> Seq<char>
    decreases lines.len(),
{
    if lines.len() == 0 {
        seq![]
    } else {
        concat(lines.drop_last()) + lines.last()
    }
}

/// `r` is a section on the day `today`: a blank line, `# ` and the title
/// in bold blue, a blank line, then one line per task.
pub open spec fn section_on(r: Seq<char>, title: Seq<char>, items: Seq<InfoView>, today: DueDate) -> bool {
    exists|t: Seq<char>, lines: Seq<Seq<char>>|
        #![trigger painting(t, title, 34, true), concat(lines)]
        {
            &&& painting(t, title, 34, true)
            &&& lines.len() == items.len()
            &&& forall|i: int| 0 <= i < lines.len() ==> line_on(#[trigger] lines[i], items[i], today)
            &&& r == "\n# "@ + t + "\n\n"@ + concat(lines)
        }
}

/// `r` is a section on some day that the clock can give.
pub open spec fn section_shown(r: Seq<char>, title: Seq<char>, items: Seq<InfoView>) -> bool {
    exists|day: DueDate| clock_day(day) && #[trigger] section_on(r, title, items, day)
}

fn format_line(item: &ListInfo, today: DueDate) -> (r: Vec<char>)
    ensures
        line_on(r@, item@, today),
{
    let prefix = task_prefix_on(item.priority, item.due_date, today);
    let mut hashed_tags: Vec<Vec<char>> = Vec::new();
    let ghost mut painted: Seq<Seq<char>> = seq![];
    let n = item.tags.len();
    let mut i: usize = 0;
    while i < n
        invariant
            n == item.tags.len(),
            0 <= i <= n,
            painted.len() == i,
            forall|j: int| 0 <= j < i ==> painting(#[trigger] painted[j], item@.tags[j], 93, false),
            char_views(hashed_tags@) == hashed(painted),
        decreases n - i,
    {
        let p = shown(&bright_yellow(item.tags[i].as_str()));
        let mut h: Vec<char> = vec!['#'];
        push_all(&mut h, &chars_of(p.as_str()));
        assert(h@ =~= seq!['#'] + p@);
        let ghost before = char_views(hashed_tags@);
        hashed_tags.push(h);
        proof {
            painted = painted.push(p@);
            assert("#"@ =~= seq!['#']) by {
                reveal_strlit("#");
            }
            assert(hashed(painted) =~= before.push("#"@ + p@));
            assert(char_views(hashed_tags@) =~= hashed(painted));
        }
        i = i + 1;
    }
    let mut out = chars_of(" * ");
    push_all(&mut out, &chars_of(prefix.as_str()));
    push_all(&mut out, &chars_of(" "));
    push_all(&mut out, &chars_of(item.name.as_str()));
    if n > 0 {
        push_all(&mut out, &chars_of(" ["));
        let sorted = sort_texts(&hashed_tags);
        push_all(&mut out, &join_chars(&sorted, &chars_of(" ")));
        push_all(&mut out, &chars_of("]"));
    }
    push_all(&mut out, &chars_of(" "));
    match &item.due_date {
        Some(d) => {
            push_all(&mut out, &chars_of("(due: "));
            push_all(&mut out, &date_chars(d));
            push_all(&mut out, &chars_of(")"));
        },
        None => {},
    }
    push_all(&mut out, &chars_of("\n"));
    assert(out@ =~= " * "@ + prefix@ + " "@ + item@.name + tags_info(painted) + " "@ + due_info(
        item@.due_date,
    ) + "\n"@);
    out
}

fn section_chars(title: &str, items: &Vec<ListInfo>, today: DueDate) -> (r: Vec<char>)
    ensures
        section_on(r@, title@, info_views(items@), today),
{
    let t = shown(&bold(blue(title)));
    let mut body: Vec<char> = Vec::new();
    let ghost mut lines: Seq<Seq<char>> = seq![];
    let n = items.len();
    let mut i: usize = 0;
    while i < n
        invariant
            n == items.len(),
            0 <= i <= n,
            lines.len() == i,
            forall|j: int| 0 <= j < i ==> line_on(#[trigger] lines[j], items@[j]@, today),
            body@ == concat(lines),
        decreases n - i,
    {
        let line = format_line(&items[i], today);
        push_all(&mut body, &line);
        proof {
            let before = lines;
            lines = lines.push(line@);
            assert(lines.drop_last() =~= before);
        }
        i = i + 1;
    }
    let mut out = chars_of("\n# ");
    push_all(&mut out, &chars_of(t.as_str()));
    push_all(&mut out, &chars_of("\n\n"));
    push_all(&mut out, &body);
    assert(out@ =~= "\n# "@ + t@ + "\n\n"@ + concat(lines));
    out
}

/// A section with a bold blue title and one line per task, each task
/// judged overdue or not on the day `today`.
pub fn format_section_on(title: &str, items: Vec<ListInfo>, today: DueDate) -> (r: String)
    ensures
        section_on(r@, title@, info_views(items@), today),
{
    let c = section_chars(title, &items, today);
    string_of(&c)
}

/// A section with a bold blue title and one line per task, each task
/// judged overdue or not on today's date: as `format_section_on` does for
/// one current day.
pub fn format_section(title: &str, items: Vec<ListInfo>) -> (r: String)
    ensures
        section_shown(r@, title@, info_views(items@)),
{
    let day = today();
    format_section_on(title, items, day)
}

/// `r` is a count line: `# `, the label, the coloured number and `task` or
/// `tasks`.
pub open spec fn count_line(r: Seq<char>, label: Seq<char>, n: nat) -> bool {
    exists|a: Seq<char>|
        #[trigger] painting(a, decimal(n), 36, true) && r == "# "@ + label + ": "@ + a + " "@ + plural(
            n,
            "task"@,
        ) + "\n"@
}

/// Two texts one after the other.
pub open spec fn glue2(a: Seq<char>, b: Seq<char>) -> Seq<char> {
    a + b
}

/// Three texts one after another.
pub open spec fn glue3(a: Seq<char>, b: Seq<char>, c: Seq<char>) -> Seq<char> {
    a + b + c
}

/// `r` shows the outcome `o`, with overdue tasks judged on the day `today`.
pub open spec fn outcome_on(r: Seq<char>, o: OutcomeView, today: DueDate) -> bool {
    match o {
        OutcomeView::Created => painting(r, "✓ Successfully created!"@, 32, false),
        OutcomeView::Updated => painting(r, "✓ Successfully updated!"@, 32, false),
        OutcomeView::Exported => painting(r, "✓ Successfully exported!"@, 32, false),
        OutcomeView::Undone => painting(r, "✓ Successfully undone!"@, 32, false),
        OutcomeView::Listed { todo_items, done_items } => if todo_items.len() == 0
            && done_items.len() == 0 {
            painting(r, "\nNo Tasks found.\n"@, 33, false)
        } else {
            exists|a: Seq<char>, b: Seq<char>|
                #![trigger glue2(a, b)]
                {
                    &&& (if todo_items.len() > 0 {
                        section_on(a, "To Do"@, todo_items, today)
                    } else {
                        a == Seq::<char>::empty()
                    })
                    &&& (if done_items.len() > 0 {
                        section_on(b, "Done"@, done_items, today)
                    } else {
                        b == Seq::<char>::empty()
                    })
                    &&& r == glue2(a, b)
                }
        },
        OutcomeView::Counted { total, total_todo, total_done } => exists|
            a: Seq<char>,
            b: Seq<char>,
            c: Seq<char>,
        |
            #![trigger glue3(a, b, c)]
            {
                &&& count_line(a, "Total"@, total)
                &&& count_line(b, "To Do"@, total_todo)
                &&& count_line(c, "Done"@, total_done)
                &&& r == "\n"@ + glue3(a, b, c)
            },
    }
}

/// `r` shows the outcome `o`, with overdue tasks judged on some day that
/// the clock can give.
pub open spec fn outcome_shown(r: Seq<char>, o: OutcomeView) -> bool {
    exists|day: DueDate| clock_day(day) && #[trigger] outcome_on(r, o, day)
}

fn count_chars(label: &str, n: usize) -> (r: Vec<char>)
    ensures
        count_line(r@, label@, n as nat),
{
    let digits = string_of(&decimal_chars(n as u64));
    let a = shown(&bold(cyan(digits.as_str())));
    let mut out = chars_of("# ");
    push_all(&mut out, &chars_of(label));
    push_all(&mut out, &chars_of(": "));
    push_all(&mut out, &chars_of(a.as_str()));
    push_all(&mut out, &chars_of(" "));
    push_all(&mut out, &chars_of(pluralize(n, "task").as_str()));
    push_all(&mut out, &chars_of("\n"));
    assert(out@ =~= "# "@ + label@ + ": "@ + a@ + " "@ + plural(n as nat, "task"@) + "\n"@);
    out
}

/// The text that shows an outcome: a green message, the sections of a
/// listing (or a yellow note that nothing was found), or the three counts,
/// with overdue tasks judged on today's date: as `format_outcome_on` does
/// for one current day.
pub fn format_outcome(outcome: CommandOutcome) -> (r: String)
    ensures
        outcome_shown(r@, outcome@),
{
    let day = today();
    format_outcome_on(outcome, day)
}

/// The text that shows an outcome, with overdue tasks judged on the day
/// `today`: a green message, the sections of a listing (or a yellow note
/// that nothing was found), or the three counts in bold cyan.
pub fn format_outcome_on(outcome: CommandOutcome, today: DueDate) -> (r: String)
    ensures
        outcome_on(r@, outcome@, today),
{
    match outcome {
        CommandOutcome::Created => shown(&green("✓ Successfully created!")),
        CommandOutcome::Updated => shown(&green("✓ Successfully updated!")),
        CommandOutcome::Exported => shown(&green("✓ Successfully exported!")),
        CommandOutcome::Undone => shown(&green("✓ Successfully undone!")),
        CommandOutcome::Listed { todo_items, done_items } => {
            if todo_items.len() == 0 && done_items.len() == 0 {
                return shown(&yellow("\nNo Tasks found.\n"));
            }
            let mut a: Vec<char> = Vec::new();
            if todo_items.len() > 0 {
                a = section_chars("To Do", &todo_items, today);
            }
            let mut b: Vec<char> = Vec::new();
            if done_items.len() > 0 {
                b = section_chars("Done", &done_items, today);
            }
            let mut out = a.clone();
            push_all(&mut out, &b);
            assert(out@ =~= glue2(a@, b@));
            string_of(&out)
        },
        CommandOutcome::Counted { total, total_todo, total_done } => {
            let a = count_chars("Total", total);
            let b = count_chars("To Do", total_todo);
            let c = count_chars("Done", total_done);
            let mut out = chars_of("\n");
            push_all(&mut out, &a);
            push_all(&mut out, &b);
            push_all(&mut out, &c);
            assert(out@ =~= "\n"@ + glue3(a@, b@, c@));
            string_of(&out)
        },
    }
}

} // verus!
