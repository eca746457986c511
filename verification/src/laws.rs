//! What holds of the task list across its operations.

use vstd::prelude::*;
use crate::domain::{DueDate, ItemView, Priority, Status, UndoView, lemma_first_occurrences, tidy, tidy_all};
use crate::calendar::{next_reading, parsed_date, readings};
use crate::commands::{OutcomeView, ReplyView, failed, handled, stored};
use crate::formatting::{clock_day, prefix_on, prefix_shown};
use crate::paint::painting;
use crate::todo_list::{
    TodoList, add_done, ascii_found, add_outcome, as_map, has_key, lemma_key_index, lemma_map_push, map_of_items,
    clear_outcome, other_status, tags_distinct,
    normalized_change, lemma_with_status, new_task, renamed,
    undo_outcome, undone_map, unique_names, with_new_status, with_status,
};
use crate::text::{ascii_lowered, contains_text, insert_sorted, is_space, join, sorted_texts, text_le, words, words_from};
use crate::utils::{clean_name, is_tag_word, name_words, tags_in, task_tags, untagged_words};

verus! {

/// Taking back an addition removes the added task and leaves every other
/// task as it was: the tasks are those from before the addition.
pub proof fn law_undo_add(
    before: TodoList,
    after: TodoList,
    key: Seq<char>,
    priority: Option<Priority>,
    due_text: Option<Seq<char>>,
    parsed: Option<DueDate>,
    today: DueDate,
    r: Result<(), String>,
)
    requires
        before.wf(),
        add_outcome(before, after, key, priority, due_text, parsed, today, r),
        r is Ok,
    ensures
        after.last_change() matches Some(a) && undone_map(after.map(), a) == before.map(),
{
    let name = clean_name(key);
    assert(before.map().insert(name, new_task(key, priority, if due_text is Some { parsed } else { None })).remove(name) =~= before.map());
}

/// Taking back a change of status gives the task back its earlier status.
pub proof fn law_undo_mark(m: Map<Seq<char>, ItemView>, key: Seq<char>, value: Status)
    requires
        m.contains_key(key),
    ensures
        undone_map(
            m.insert(key, with_new_status(m[key], value)),
            match value {
                Status::Todo => UndoView::MarkTodo { key, previous_item: m[key] },
                Status::Done => UndoView::MarkDone { key, previous_item: m[key] },
            },
        ) == m,
{
    assert(m.insert(key, with_new_status(m[key], value)).insert(key, m[key]) =~= m);
}

/// Taking back a removal brings the removed task back.
pub proof fn law_undo_remove(m: Map<Seq<char>, ItemView>, key: Seq<char>)
    requires
        m.contains_key(key),
    ensures
        undone_map(m.remove(key), UndoView::Delete { key, previous_item: m[key] }) == m,
{
    assert(m.remove(key).insert(key, m[key]) =~= m);
}

/// Taking back a renaming gives the task its old name back and frees the
/// new one.
pub proof fn law_undo_edit(m: Map<Seq<char>, ItemView>, old_key: Seq<char>, new_key: Seq<char>)
    requires
        m.contains_key(old_key),
        old_key == new_key || !m.contains_key(new_key),
    ensures
        undone_map(
            m.remove(old_key).insert(new_key, renamed(m[old_key], new_key)),
            UndoView::Edit { key: old_key, new_key, previous_item: m[old_key] },
        ) == m,
{
    assert(m.remove(old_key).insert(new_key, renamed(m[old_key], new_key)).remove(new_key).insert(
        old_key,
        m[old_key],
    ) =~= m);
}

/// Only the last change can be taken back: a second undo in a row fails
/// with `Nothing to undo!` and changes nothing.
pub proof fn law_undo_once(
    first: TodoList,
    second: TodoList,
    third: TodoList,
    r1: Result<(), String>,
    r2: Result<(), String>,
)
    requires
        undo_outcome(first, second, r1),
        undo_outcome(second, third, r2),
        r1 is Ok,
    ensures
        r2 matches Err(e) && e@ == "Nothing to undo!"@,
        third == second,
{
}

/// Every task is either open or finished: the open and the finished tasks
/// together are all the tasks.
pub proof fn law_status_partition(s: Seq<ItemView>)
    ensures
        with_status(s, Status::Todo).len() + with_status(s, Status::Done).len() == s.len(),
    decreases s.len(),
{
    if s.len() > 0 {
        law_status_partition(s.drop_last());
    }
}

/// Keeping the tasks of one status keeps exactly those tasks, each as it
/// was.
pub proof fn law_keep_status(s: Seq<ItemView>, st: Status)
    requires
        unique_names(s),
    ensures
        forall|k: Seq<char>|
            #[trigger] as_map(with_status(s, st)).contains_key(k) <==> (as_map(s).contains_key(k)
                && as_map(s)[k].status == st),
        forall|k: Seq<char>|
            #[trigger] as_map(with_status(s, st)).contains_key(k) ==> as_map(with_status(s, st))[k]
                == as_map(s)[k],
    decreases s.len(),
{
    lemma_with_status(s, st);
    let w = with_status(s, st);
    assert forall|i: int| 0 <= i < w.len() implies exists|j: int| 0 <= j < s.len() && s[j] == #[trigger] w[i] by {
        lemma_members(s, st, i);
    }
    assert forall|j: int| 0 <= j < s.len() && s[j].status == st implies exists|i: int| 0 <= i < w.len() && #[trigger] w[i] == s[j] by {
        lemma_members_back(s, st, j);
    }
    assert forall|k: Seq<char>| #[trigger] as_map(w).contains_key(k) implies as_map(s).contains_key(k) && as_map(s)[k].status == st && as_map(w)[k] == as_map(s)[k] by {
        let i = choose|i: int| 0 <= i < w.len() && (#[trigger] w[i]).name == k;
        lemma_key_index(w, i);
        let j = choose|j: int| 0 <= j < s.len() && s[j] == #[trigger] w[i];
        lemma_key_index(s, j);
    }
    assert forall|k: Seq<char>| as_map(s).contains_key(k) && as_map(s)[k].status == st implies #[trigger] as_map(w).contains_key(k) by {
        let j = choose|j: int| 0 <= j < s.len() && (#[trigger] s[j]).name == k;
        lemma_key_index(s, j);
        let i = choose|i: int| 0 <= i < w.len() && #[trigger] w[i] == s[j];
    }
}

proof fn lemma_members(s: Seq<ItemView>, st: Status, i: int)
    requires
        0 <= i < with_status(s, st).len(),
    ensures
        exists|j: int| 0 <= j < s.len() && s[j] == #[trigger] with_status(s, st)[i],
    decreases s.len(),
{
    let p = s.drop_last();
    lemma_with_status(p, st);
    if s.last().status == st && i == with_status(p, st).len() {
    } else {
        lemma_members(p, st, i);
        let j = choose|j: int| 0 <= j < p.len() && p[j] == #[trigger] with_status(p, st)[i];
    }
}

proof fn lemma_members_back(s: Seq<ItemView>, st: Status, j: int)
    requires
        0 <= j < s.len(),
        s[j].status == st,
    ensures
        exists|i: int| 0 <= i < with_status(s, st).len() && #[trigger] with_status(s, st)[i] == s[j],
    decreases s.len(),
{
    let p = s.drop_last();
    if j == s.len() - 1 {
        let i = with_status(p, st).len() as int;
        assert(with_status(s, st)[i] == s[j]);
    } else {
        lemma_members_back(p, st, j);
        let i = choose|i: int| 0 <= i < with_status(p, st).len() && #[trigger] with_status(p, st)[i] == p[j];
        assert(with_status(s, st)[i] == with_status(p, st)[i]);
    }
}

/// No character of `w` is white space.
pub open spec fn space_free(w: Seq<char>) -> bool {
    forall|i: int| 0 <= i < w.len() ==> !is_space(#[trigger] w[i])
}

/// A word: not empty, and without white space.
pub open spec fn plain_word(w: Seq<char>) -> bool {
    w.len() > 0 && space_free(w)
}

proof fn lemma_words_append(a: Seq<char>, b: Seq<char>, cur: Seq<char>)
    requires
        space_free(a),
    ensures
        words_from(a + b, cur) == words_from(b, cur + a),
    decreases a.len(),
{
    if a.len() == 0 {
        assert(a + b =~= b);
        assert(cur + a =~= cur);
    } else {
        assert((a + b).drop_first() =~= a.drop_first() + b);
        assert(space_free(a.drop_first())) by {
            assert forall|i: int| 0 <= i < a.drop_first().len() implies !is_space(#[trigger] a.drop_first()[i]) by {}
        }
        lemma_words_append(a.drop_first(), b, cur.push(a[0]));
        assert(cur.push(a[0]) + a.drop_first() =~= cur + a);
    }
}

proof fn lemma_join_front(ws: Seq<Seq<char>>, sep: Seq<char>)
    requires
        ws.len() >= 2,
    ensures
        join(ws, sep) == ws[0] + sep + join(ws.drop_first(), sep),
    decreases ws.len(),
{
    if ws.len() == 2 {
        assert(join(ws.drop_last(), sep) == ws[0]);
    } else {
        let p = ws.drop_last();
        lemma_join_front(p, sep);
        assert(p.drop_first() =~= ws.drop_first().drop_last());
        assert(ws[0] + sep + join(p.drop_first(), sep) + sep + ws.last() =~= ws[0] + sep + (join(
            p.drop_first(),
            sep,
        ) + sep + ws.last()));
    }
}

proof fn lemma_words_of_join(ws: Seq<Seq<char>>)
    requires
        forall|i: int| 0 <= i < ws.len() ==> plain_word(#[trigger] ws[i]),
    ensures
        words(join(ws, seq![' '])) == ws,
    decreases ws.len(),
{
    let e = Seq::<char>::empty();
    if ws.len() == 0 {
        assert(ws =~= Seq::<Seq<char>>::empty());
    } else if ws.len() == 1 {
        lemma_words_append(ws[0], e, e);
        assert(ws[0] + e =~= ws[0]);
        assert(e + ws[0] =~= ws[0]);
        assert(ws =~= seq![ws[0]]);
    } else {
        let rest = ws.drop_first();
        assert forall|i: int| 0 <= i < rest.len() implies plain_word(#[trigger] rest[i]) by {}
        lemma_words_of_join(rest);
        let j = join(rest, seq![' ']);
        lemma_join_front(ws, seq![' ']);
        assert(ws[0] + seq![' '] + j =~= ws[0] + (seq![' '] + j));
        lemma_words_append(ws[0], seq![' '] + j, e);
        assert(e + ws[0] =~= ws[0]);
        let sj = seq![' '] + j;
        assert(is_space(' ')) by {}
        assert(sj.drop_first() =~= j);
        assert(seq![ws[0]] + rest =~= ws);
    }
}

proof fn lemma_words_plain(s: Seq<char>, cur: Seq<char>)
    requires
        space_free(cur),
    ensures
        forall|i: int| 0 <= i < words_from(s, cur).len() ==> plain_word(#[trigger] words_from(s, cur)[i]),
    decreases s.len(),
{
    let e = Seq::<char>::empty();
    if s.len() == 0 {
        if cur.len() > 0 {
        } else {
        }
    } else if is_space(s[0]) {
        lemma_words_plain(s.drop_first(), e);
        let head: Seq<Seq<char>> = if cur.len() > 0 {
            seq![cur]
        } else {
            seq![]
        };
        let tail = words_from(s.drop_first(), e);
        assert forall|i: int| 0 <= i < words_from(s, cur).len() implies plain_word(#[trigger] words_from(s, cur)[i]) by {
            if i < head.len() {
            } else {
            }
        }
    } else {
        let next = cur.push(s[0]);
        assert(space_free(next)) by {
            assert forall|i: int| 0 <= i < next.len() implies !is_space(#[trigger] next[i]) by {
                if i < cur.len() {
                }
            }
        }
        lemma_words_plain(s.drop_first(), next);
        assert(words_from(s, cur) == words_from(s.drop_first(), next));
    }
}

proof fn lemma_filter_keeps(ws: Seq<Seq<char>>)
    requires
        forall|i: int| 0 <= i < ws.len() ==> plain_word(#[trigger] ws[i]),
    ensures
        forall|i: int|
            0 <= i < untagged_words(ws).len() ==> {
                &&& plain_word(#[trigger] untagged_words(ws)[i])
                &&& !is_tag_word(untagged_words(ws)[i])
            },
        untagged_words(untagged_words(ws)) == untagged_words(ws),
    decreases ws.len(),
{
    reveal(Seq::filter);
    let f = untagged_words(ws);
    if ws.len() > 0 {
        let p = ws.drop_last();
        assert forall|i: int| 0 <= i < p.len() implies plain_word(#[trigger] p[i]) by {}
        lemma_filter_keeps(p);
        let fp = untagged_words(p);
        assert forall|i: int| 0 <= i < f.len() implies plain_word(#[trigger] f[i]) && !is_tag_word(f[i]) by {
            if i < fp.len() {
            } else {
            }
        }
        if !is_tag_word(ws.last()) {
            assert(f.drop_last() =~= fp);
        } else {
        }
    }
}

proof fn lemma_no_tags(ws: Seq<Seq<char>>)
    requires
        forall|i: int| 0 <= i < ws.len() ==> !is_tag_word(#[trigger] ws[i]),
    ensures
        tags_in(ws) == Seq::<Seq<char>>::empty(),
    decreases ws.len(),
{
    if ws.len() > 0 {
        let p = ws.drop_last();
        assert forall|i: int| 0 <= i < p.len() implies !is_tag_word(#[trigger] p[i]) by {}
        lemma_no_tags(p);
    }
}

/// The words of a task's name are the words of its text that are not
/// tags.
pub proof fn law_name_words(task: Seq<char>)
    ensures
        words(clean_name(task)) == name_words(task),
{
    lemma_words_plain(task, Seq::<char>::empty());
    lemma_filter_keeps(words(task));
    lemma_words_of_join(name_words(task));
}

/// A task's name holds no tag: reading tags from it finds none.
pub proof fn law_name_has_no_tags(task: Seq<char>)
    ensures
        task_tags(clean_name(task)) == Seq::<Seq<char>>::empty(),
{
    law_name_words(task);
    lemma_words_plain(task, Seq::<char>::empty());
    lemma_filter_keeps(words(task));
    lemma_no_tags(name_words(task));
}

/// Taking the tags out of a name that has none changes nothing: cleaning a
/// task's text twice gives the name that cleaning it once gives.
pub proof fn law_clean_name_idempotent(task: Seq<char>)
    ensures
        clean_name(clean_name(task)) == clean_name(task),
{
    law_name_words(task);
    lemma_words_plain(task, Seq::<char>::empty());
    lemma_filter_keeps(words(task));
}

/// The texts of `s` come in the order of `str`.
pub open spec fn in_order(s: Seq<Seq<char>>) -> bool {
    forall|i: int, j: int| 0 <= i < j < s.len() ==> text_le(#[trigger] s[i], #[trigger] s[j])
}

proof fn lemma_distinct_codes(a: char, b: char)
    requires
        a != b,
    ensures
        (a as u32) != (b as u32),
{
}

/// Any two texts are ordered one way or the other.
pub proof fn law_text_order_total(a: Seq<char>, b: Seq<char>)
    ensures
        text_le(a, b) || text_le(b, a),
    decreases a.len(),
{
    if a.len() > 0 && b.len() > 0 {
        if a[0] == b[0] {
            law_text_order_total(a.drop_first(), b.drop_first());
        } else {
            lemma_distinct_codes(a[0], b[0]);
        }
    }
}

/// The order of texts is transitive.
pub proof fn law_text_order_transitive(a: Seq<char>, b: Seq<char>, c: Seq<char>)
    requires
        text_le(a, b),
        text_le(b, c),
    ensures
        text_le(a, c),
    decreases a.len(),
{
    if a.len() > 0 && a[0] == b[0] && b[0] == c[0] {
        law_text_order_transitive(a.drop_first(), b.drop_first(), c.drop_first());
    }
}

proof fn lemma_insert_position(s: Seq<Seq<char>>, x: Seq<char>) -> (p: int)
    ensures
        0 <= p <= s.len(),
        insert_sorted(s, x) == s.insert(p, x),
        forall|j: int| 0 <= j < p ==> !text_le(x, #[trigger] s[j]),
        p == s.len() || text_le(x, s[p]),
    decreases s.len(),
{
    if s.len() == 0 {
        assert(s.insert(0, x) =~= seq![x]);
        0
    } else if text_le(x, s[0]) {
        assert(s.insert(0, x) =~= seq![x] + s);
        0
    } else {
        let t = s.drop_first();
        let q = lemma_insert_position(t, x);
        assert(seq![s[0]] + t.insert(q, x) =~= s.insert(q + 1, x));
        assert forall|j: int| 0 <= j < q + 1 implies !text_le(x, #[trigger] s[j]) by {
            if j > 0 {
                assert(s[j] == t[j - 1]);
            }
        }
        if q < t.len() {
        }
        q + 1
    }
}

/// Putting a text into an ordered sequence keeps it ordered and adds just
/// that text.
pub proof fn law_insert_sorted(s: Seq<Seq<char>>, x: Seq<char>)
    requires
        in_order(s),
    ensures
        in_order(insert_sorted(s, x)),
        insert_sorted(s, x).to_multiset() == s.to_multiset().insert(x),
{
    broadcast use vstd::seq_lib::to_multiset_insert;

    let p = lemma_insert_position(s, x);
    let r = s.insert(p, x);
    assert forall|j: int| 0 <= j < p implies text_le(#[trigger] s[j], x) by {
        law_text_order_total(x, s[j]);
    }
    assert forall|j: int| p <= j < s.len() implies text_le(x, #[trigger] s[j]) by {
        if j > p {
            law_text_order_transitive(x, s[p], s[j]);
        }
    }
    assert forall|i: int, j: int| 0 <= i < j < r.len() implies text_le(#[trigger] r[i], #[trigger] r[j]) by {
        if i < p && j < p {
        } else if i < p && j == p {
        } else if i < p {
            law_text_order_transitive(s[i], x, s[j - 1]);
        } else if i == p {
        } else {
        }
    }
}

/// Sorting gives the same texts, each as often, in the order of `str`.
pub proof fn law_sorted_texts(s: Seq<Seq<char>>)
    ensures
        in_order(sorted_texts(s)),
        sorted_texts(s).to_multiset() == s.to_multiset(),
    decreases s.len(),
{
    broadcast use vstd::seq_lib::to_multiset_build;

    if s.len() == 0 {
        assert(sorted_texts(s) =~= s);
    } else {
        let p = s.drop_last();
        law_sorted_texts(p);
        law_insert_sorted(sorted_texts(p), s.last());
        assert(p.push(s.last()) =~= s);
    }
}

proof fn lemma_map_of_items(s: Seq<ItemView>)
    requires
        unique_names(s),
    ensures
        map_of_items(s) == as_map(s),
    decreases s.len(),
{
    if s.len() > 0 {
        let p = s.drop_last();
        assert(unique_names(p)) by {
            assert forall|i: int, j: int| 0 <= i < p.len() && 0 <= j < p.len() && i != j implies (#[trigger] p[i]).name != (#[trigger] p[j]).name by {
                assert(p[i] == s[i] && p[j] == s[j]);
            }
        }
        lemma_map_of_items(p);
        assert(!has_key(p, s.last().name)) by {
            if has_key(p, s.last().name) {
                let j = choose|j: int| 0 <= j < p.len() && (#[trigger] p[j]).name == s.last().name;
                assert(p[j] == s[j]);
                assert(s[s.len() - 1] == s.last());
            }
        }
        lemma_map_push(p, s.last());
        assert(p.push(s.last()) =~= s);
    }
}

/// Keeping each tag once changes no task that already carries each tag
/// once.
proof fn lemma_tidy_all(s: Seq<ItemView>)
    requires
        tags_distinct(s),
    ensures
        tidy_all(s) == s,
{
    assert forall|i: int| 0 <= i < s.len() implies #[trigger] tidy_all(s)[i] == s[i] by {
        lemma_first_occurrences(s[i].tags);
    }
    assert(tidy_all(s) =~= s);
}

/// A list rebuilt from its own stored tasks and stored change is the list
/// it was: storing and loading keeps every task and what undo would do.
pub proof fn law_parts_round_trip(l: TodoList)
    requires
        l.wf(),
    ensures
        map_of_items(tidy_all(l.entries())) == l.map(),
        normalized_change(l.last_change()) == l.last_change(),
{
    lemma_map_of_items(l.entries());
    lemma_tidy_all(l.entries());
    match l.last_change() {
        Some(UndoView::Edit { key, new_key, previous_item }) => {
            lemma_first_occurrences(previous_item.tags);
            assert(ItemView { name: key, ..tidy(previous_item) } == previous_item);
        },
        Some(UndoView::MarkDone { key, previous_item }) => {
            lemma_first_occurrences(previous_item.tags);
            assert(ItemView { name: key, ..tidy(previous_item) } == previous_item);
        },
        Some(UndoView::MarkTodo { key, previous_item }) => {
            lemma_first_occurrences(previous_item.tags);
            assert(ItemView { name: key, ..tidy(previous_item) } == previous_item);
        },
        Some(UndoView::Delete { key, previous_item }) => {
            lemma_first_occurrences(previous_item.tags);
            assert(ItemView { name: key, ..tidy(previous_item) } == previous_item);
        },
        Some(UndoView::Clear { removed }) => {
            lemma_tidy_all(removed);
        },
        _ => {},
    }
}

/// Taking back a clear brings back every task it removed: after a clear
/// that removed at least one task, `undo` succeeds and gives back the tasks
/// from before the clear.
pub proof fn law_undo_clear(
    before: TodoList,
    after: TodoList,
    undone: TodoList,
    kept: Option<Status>,
    count: usize,
    r: Result<(), String>,
)
    requires
        before.wf(),
        clear_outcome(before, after, kept, count),
        count > 0,
        undo_outcome(after, undone, r),
    ensures
        r is Ok,
        undone.map() == before.map(),
{
    let s = before.entries();
    match kept {
        None => {
            lemma_map_of_items(s);
            assert(after.map() =~= Map::<Seq<char>, ItemView>::empty());
            assert(Map::<Seq<char>, ItemView>::empty().union_prefer_right(as_map(s)) =~= as_map(s));
        },
        Some(st) => {
            let o = other_status(st);
            lemma_with_status(s, o);
            lemma_map_of_items(with_status(s, o));
            law_keep_status(s, st);
            law_keep_status(s, o);
            let a = as_map(with_status(s, st));
            let b = as_map(with_status(s, o));
            assert forall|k: Seq<char>| #[trigger] a.union_prefer_right(b).contains_key(k) <==> as_map(s).contains_key(k) by {
                if as_map(s).contains_key(k) {
                    assert(b.contains_key(k) || a.contains_key(k));
                }
            }
            assert(a.union_prefer_right(b) =~= as_map(s));
        },
    }
}

/// Adding judges a due date against the day that the clock gives during
/// the addition (read once for it, the next reading of the list's chain): for a new, non-empty name whose due
/// date reads as the day `d`, the task is added with that due date exactly
/// when `d` is not before that day; otherwise the addition fails with
/// `Error: Due date must be in the future.` and the tasks stay as they were.
pub proof fn law_add_judges_due_dates_on_the_clock(
    before: TodoList,
    after: TodoList,
    key: Seq<char>,
    priority: Option<Priority>,
    due: Seq<char>,
    d: DueDate,
    r: Result<(), String>,
)
    requires
        before.wf(),
        add_done(before, after, key, priority, Some(due), r),
        clean_name(key).len() > 0,
        !before.map().contains_key(clean_name(key)),
        parsed_date(due) == Some(d),
    ensures
        readings(after.clock()) == next_reading(readings(before.clock())),
        after.clock() matches Some(c) && {
            &&& d.precedes(c.day()) ==> {
                &&& r matches Err(e) && e@ == "Error: Due date must be in the future."@
                &&& after.map() == before.map()
                &&& after.last_change() == before.last_change()
            }
            &&& !d.precedes(c.day()) ==> {
                &&& r is Ok
                &&& after.map().contains_key(clean_name(key))
                &&& after.map()[clean_name(key)].due_date == Some(d)
                &&& after.map()[clean_name(key)].status == Status::Todo
                &&& after.map().remove(clean_name(key)) == before.map()
            }
        },
{
    before.lemma_reclocked(after.clock());
    let name = clean_name(key);
    if !d.precedes(after.clock().unwrap().day()) {
        assert(before.map().insert(name, new_task(key, priority, Some(d))).remove(name) =~= before.map());
    }
}

/// The `add` command accepts every due date that is not before the day the
/// clock gives during the command, and refuses every earlier one: for a
/// new, non-empty name whose due date reads as `d`, it answers `Created`
/// and asks for the list to be stored, with the task due on `d`, exactly
/// when `d` is not before that day.
pub proof fn law_add_command_judges_due_dates_on_the_clock(
    before: TodoList,
    after: TodoList,
    task: Seq<char>,
    priority: Option<Priority>,
    due: Seq<char>,
    path: Seq<char>,
    reply: ReplyView,
    d: DueDate,
)
    requires
        before.wf(),
        handled(before, after, "add"@, Some(seq![task]), None, priority, Some(due), None, path, reply),
        clean_name(task).len() > 0,
        !before.map().contains_key(clean_name(task)),
        parsed_date(due) == Some(d),
    ensures
        readings(after.clock()) == next_reading(readings(before.clock())),
        after.clock() matches Some(c) && {
            &&& !d.precedes(c.day()) ==> {
                &&& reply == stored(OutcomeView::Created, path)
                &&& after.map().contains_key(clean_name(task))
                &&& after.map()[clean_name(task)].due_date == Some(d)
            }
            &&& d.precedes(c.day()) ==> {
                &&& reply == failed("Error: Due date must be in the future."@)
                &&& after.map() == before.map()
            }
        },
{
    let r = choose|r: Result<(), String>|
        #[trigger] add_done(before, after, task, priority, Some(due), r) && match r {
            Ok(_) => reply == stored(OutcomeView::Created, path),
            Err(e) => reply == failed(e@),
        };
    law_add_judges_due_dates_on_the_clock(before, after, task, priority, due, d, r);
}

/// Searching looks at the whole name, letter case aside: on ASCII text,
/// every task of status `st` whose name holds `keyword` at any place (each
/// capital taken as its small letter) is among the found ones, and every
/// found task is of status `st` and holds `keyword` so.
pub proof fn law_find_whole_name_any_case(
    s: Seq<ItemView>,
    keyword: Seq<char>,
    st: Status,
    i: int,
    at: int,
)
    requires
        0 <= i < s.len(),
        s[i].status == st,
        0 <= at,
        at + keyword.len() <= s[i].name.len(),
        ascii_lowered(s[i].name).subrange(at, at + keyword.len()) == ascii_lowered(keyword),
    ensures
        ascii_found(s, keyword, st).contains(s[i]),
        forall|it: ItemView|
            #[trigger] ascii_found(s, keyword, st).contains(it) ==> it.status == st && contains_text(
                ascii_lowered(it.name),
                ascii_lowered(keyword),
            ),
{
    let pred = |it: ItemView| it.status == st && contains_text(ascii_lowered(it.name), ascii_lowered(keyword));
    assert(ascii_lowered(s[i].name).len() == s[i].name.len());
    assert(ascii_lowered(keyword).len() == keyword.len());
    assert(contains_text(ascii_lowered(s[i].name), ascii_lowered(keyword)));
    s.lemma_filter_contains(pred, i);
    assert forall|it: ItemView| #[trigger] ascii_found(s, keyword, st).contains(it) implies it.status == st
        && contains_text(ascii_lowered(it.name), ascii_lowered(keyword)) by {
        s.lemma_filter_contains_rev(pred, it);
    }
}

/// A task due before 1969-12-31, a day earlier than any the clock gives,
/// is always shown overdue: its line starts with the red dot and the bold
/// red `OVERDUE:`, whatever its priority.
pub proof fn law_prefix_marks_dates_before_every_clock_day(
    r: Seq<char>,
    priority: Priority,
    d: DueDate,
)
    requires
        prefix_shown(r, priority, Some(d)),
        d.precedes(DueDate { year: 1969, month: 12, day: 31 }),
    ensures
        exists|a: Seq<char>, b: Seq<char>|
            #![trigger painting(a, "🔴"@, 31, false), painting(b, "OVERDUE:"@, 31, true)]
            painting(a, "🔴"@, 31, false) && painting(b, "OVERDUE:"@, 31, true) && r == a + " "@ + b,
{
    let day = choose|day: DueDate| clock_day(day) && #[trigger] prefix_on(r, priority, Some(d), day);
    assert(d.precedes(day));
}

} // verus!
