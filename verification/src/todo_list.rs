//! The task list: tasks found by name, changed one at a time, and the last
//! change kept so that it can be taken back.

use vstd::prelude::*;
use crate::calendar::{ClockReading, next_reading, parse_due_date, parsed_date, readings};
use crate::utils::{clean_name, get_task_tags, remove_tags_from_name, task_tags};
use crate::csv::{csv_header, csv_rows, csv_text, push_csv_line};
use crate::text::{string_of, chars_of, concat3, contains_text, find_text, lowercase, owned, to_lowercase, views, ascii_lowered, is_ascii_text};
use crate::domain::{DueDate, InfoView, ItemView, ListInfo, Priority, Status, TodoItem, UndoAction, UndoView, info_of, info_views, item_views, tidy, tidy_all};

verus! {

/// Whether some task in `s` has the name `k`.
pub open spec fn has_key(s: Seq<ItemView>, k: Seq<char>) -> bool {
    exists|i: int| 0 <= i < s.len() && (#[trigger] s[i]).name == k
}

/// No two tasks in `s` share a name.
pub open spec fn unique_names(s: Seq<ItemView>) -> bool {
    forall|i: int, j: int|
        0 <= i < s.len() && 0 <= j < s.len() && i != j ==> (#[trigger] s[i]).name != (#[trigger] s[j]).name
}

/// No task in `s` carries the same tag twice.
pub open spec fn tags_distinct(s: Seq<ItemView>) -> bool {
    forall|i: int| 0 <= i < s.len() ==> (#[trigger] s[i]).tags.no_duplicates()
}

/// Where in `s` the task named `k` stands.
pub open spec fn key_index(s: Seq<ItemView>, k: Seq<char>) -> int {
    choose|i: int| 0 <= i < s.len() && (#[trigger] s[i]).name == k
}

/// The tasks of `s` by name.
pub open spec fn as_map(s: Seq<ItemView>) -> Map<Seq<char>, ItemView> {
    Map::new(|k: Seq<char>| has_key(s, k), |k: Seq<char>| s[key_index(s, k)])
}

/// The tasks of `s` whose status is `st`, in the same order.
pub open spec fn with_status(s: Seq<ItemView>, st: Status) -> Seq<ItemView>
    decreases s.len(),
{
    if s.len() == 0 {
        seq![]
    } else if s.last().status == st {
        with_status(s.drop_last(), st).push(s.last())
    } else {
        with_status(s.drop_last(), st)
    }
}

/// The listings of the tasks of `s` whose status is `st`.
pub open spec fn listing(s: Seq<ItemView>, st: Status) -> Seq<InfoView> {
    with_status(s, st).map_values(|it: ItemView| info_of(it))
}

pub proof fn lemma_key_index(s: Seq<ItemView>, i: int)
    requires
        unique_names(s),
        0 <= i < s.len(),
    ensures
        has_key(s, s[i].name),
        key_index(s, s[i].name) == i,
        as_map(s).contains_key(s[i].name),
        as_map(s)[s[i].name] == s[i],
{
    let j = key_index(s, s[i].name);
}

pub proof fn lemma_map_push(s: Seq<ItemView>, x: ItemView)
    requires
        unique_names(s),
        !has_key(s, x.name),
    ensures
        unique_names(s.push(x)),
        as_map(s.push(x)) == as_map(s).insert(x.name, x),
        tags_distinct(s) && x.tags.no_duplicates() ==> tags_distinct(s.push(x)),
{
    let t = s.push(x);
    if tags_distinct(s) && x.tags.no_duplicates() {
        assert forall|i: int| 0 <= i < t.len() implies (#[trigger] t[i]).tags.no_duplicates() by {
            if i < s.len() {
                assert(t[i] == s[i]);
            }
        }
    }
    assert forall|i: int, j: int|
        0 <= i < t.len() && 0 <= j < t.len() && i != j implies (#[trigger] t[i]).name != (#[trigger] t[j]).name by {
        if i < s.len() && j < s.len() {
        } else if i < s.len() {
        } else {
        }
    }
    assert forall|k: Seq<char>| #![auto] has_key(t, k) == (has_key(s, k) || k == x.name) by {
        if has_key(s, k) {
            let i = choose|i: int| 0 <= i < s.len() && (#[trigger] s[i]).name == k;
            assert(t[i] == s[i]);
        }
        if has_key(t, k) && k != x.name {
            let i = choose|i: int| 0 <= i < t.len() && (#[trigger] t[i]).name == k;
        }
        if k == x.name {
            assert(t[s.len() as int] == x);
        }
    }
    assert forall|k: Seq<char>| #[trigger] as_map(t).contains_key(k) implies as_map(t)[k] == as_map(
        s,
    ).insert(x.name, x)[k] by {
        if k == x.name {
            lemma_key_index(t, s.len() as int);
        } else {
            let i = choose|i: int| 0 <= i < s.len() && (#[trigger] s[i]).name == k;
            lemma_key_index(s, i);
            lemma_key_index(t, i);
        }
    }
    assert(as_map(t) =~= as_map(s).insert(x.name, x));
}

pub proof fn lemma_map_update(s: Seq<ItemView>, i: int, x: ItemView)
    requires
        unique_names(s),
        0 <= i < s.len(),
        x.name == s[i].name || !has_key(s, x.name),
    ensures
        unique_names(s.update(i, x)),
        as_map(s.update(i, x)) == as_map(s).remove(s[i].name).insert(x.name, x),
        tags_distinct(s) && x.tags.no_duplicates() ==> tags_distinct(s.update(i, x)),
{
    let t = s.update(i, x);
    if tags_distinct(s) && x.tags.no_duplicates() {
        assert forall|a: int| 0 <= a < t.len() implies (#[trigger] t[a]).tags.no_duplicates() by {
            if a != i {
                assert(t[a] == s[a]);
            }
        }
    }
    let old_name = s[i].name;
    assert forall|a: int, b: int|
        0 <= a < t.len() && 0 <= b < t.len() && a != b implies (#[trigger] t[a]).name != (#[trigger] t[b]).name by {
        if a == i {
            if x.name != s[i].name {
            }
        } else if b == i {
            if x.name != s[i].name {
            }
        } else {
        }
    }
    assert forall|k: Seq<char>| #![auto] has_key(t, k) == ((has_key(s, k) && k != old_name) || k == x.name) by {
        if has_key(s, k) && k != old_name {
            let j = choose|j: int| 0 <= j < s.len() && (#[trigger] s[j]).name == k;
            assert(t[j] == s[j]);
        }
        if has_key(t, k) && k != x.name {
            let j = choose|j: int| 0 <= j < t.len() && (#[trigger] t[j]).name == k;
            lemma_key_index(s, i);
        }
        if k == x.name {
            assert(t[i] == x);
        }
    }
    assert forall|k: Seq<char>| #[trigger] as_map(t).contains_key(k) implies as_map(t)[k] == as_map(
        s,
    ).remove(old_name).insert(x.name, x)[k] by {
        lemma_key_index(t, i);
        if k != x.name {
            let j = choose|j: int| 0 <= j < t.len() && (#[trigger] t[j]).name == k;
            lemma_key_index(s, j);
            lemma_key_index(t, j);
        }
    }
    assert(as_map(t) =~= as_map(s).remove(old_name).insert(x.name, x));
}

pub proof fn lemma_map_remove(s: Seq<ItemView>, i: int)
    requires
        unique_names(s),
        0 <= i < s.len(),
    ensures
        unique_names(s.remove(i)),
        as_map(s.remove(i)) == as_map(s).remove(s[i].name),
        tags_distinct(s) ==> tags_distinct(s.remove(i)),
{
    let t = s.remove(i);
    let old_name = s[i].name;
    assert forall|a: int| 0 <= a < t.len() implies #[trigger] t[a] == (if a < i { s[a] } else { s[a + 1] }) by {}
    if tags_distinct(s) {
        assert forall|a: int| 0 <= a < t.len() implies (#[trigger] t[a]).tags.no_duplicates() by {
            if a < i {
                assert(t[a] == s[a]);
            } else {
                assert(t[a] == s[a + 1]);
            }
        }
    }
    assert forall|a: int, b: int|
        0 <= a < t.len() && 0 <= b < t.len() && a != b implies (#[trigger] t[a]).name != (#[trigger] t[b]).name by {
        let sa = if a < i { a } else { a + 1 };
        let sb = if b < i { b } else { b + 1 };
    }
    assert forall|k: Seq<char>| #![auto] has_key(t, k) == (has_key(s, k) && k != old_name) by {
        if has_key(s, k) && k != old_name {
            let j = choose|j: int| 0 <= j < s.len() && (#[trigger] s[j]).name == k;
            let tj = if j < i { j } else { j - 1 };
            assert(t[tj] == s[j]);
        }
        if has_key(t, k) {
            let j = choose|j: int| 0 <= j < t.len() && (#[trigger] t[j]).name == k;
            let sj = if j < i { j } else { j + 1 };
        }
    }
    assert forall|k: Seq<char>| #[trigger] as_map(t).contains_key(k) implies as_map(t)[k] == as_map(
        s,
    ).remove(old_name)[k] by {
        let j = choose|j: int| 0 <= j < t.len() && (#[trigger] t[j]).name == k;
        let sj = if j < i { j } else { j + 1 };
        lemma_key_index(s, sj);
        lemma_key_index(t, j);
    }
    assert(as_map(t) =~= as_map(s).remove(old_name));
}

/// A list of tasks, no two with the same name, and the last change made to
/// it.
#[derive(Debug)]
pub struct TodoList {
    items: Vec<TodoItem>,
    undo_action: Option<UndoAction>,
    clock: Option<ClockReading>,
}

/// The stored change names the task that it can bring back, and what it
/// brings back carries no tag twice.
pub open spec fn undo_consistent(u: Option<UndoView>) -> bool {
    match u {
        Some(UndoView::Edit { key, new_key, previous_item }) => previous_item.name == key
            && previous_item.tags.no_duplicates(),
        Some(UndoView::MarkDone { key, previous_item }) => previous_item.name == key
            && previous_item.tags.no_duplicates(),
        Some(UndoView::MarkTodo { key, previous_item }) => previous_item.name == key
            && previous_item.tags.no_duplicates(),
        Some(UndoView::Delete { key, previous_item }) => previous_item.name == key
            && previous_item.tags.no_duplicates(),
        Some(UndoView::Clear { removed }) => tags_distinct(removed),
        None => true,
        Some(UndoView::Add { key }) => true,
    }
}

impl TodoList {
    /// The tasks, in the order in which the list keeps them.
    pub closed spec fn entries(&self) -> Seq<ItemView> {
        item_views(self.items@)
    }

    /// The last change, if one can be taken back.
    pub closed spec fn last_change(&self) -> Option<UndoView> {
        match self.undo_action {
            Some(a) => Some(a@),
            None => None,
        }
    }

    /// The last reading of the clock that an addition judged a due date
    /// against, where there was one.
    pub closed spec fn clock(&self) -> Option<ClockReading> {
        self.clock
    }

    /// The list `self` with the clock reading `c` in place of its own.
    pub closed spec fn reclocked(self, c: Option<ClockReading>) -> TodoList {
        TodoList { clock: c, ..self }
    }

    /// A list with another clock reading holds the same tasks and the same
    /// change to take back.
    pub proof fn lemma_reclocked(self, c: Option<ClockReading>)
        ensures
            self.reclocked(c).entries() == self.entries(),
            self.reclocked(c).last_change() == self.last_change(),
            self.reclocked(c).map() == self.map(),
            self.reclocked(c).clock() == c,
    {
    }

    /// The tasks by name.
    pub open spec fn map(&self) -> Map<Seq<char>, ItemView> {
        as_map(self.entries())
    }

    /// Names are unique, no task carries a tag twice, and the stored change
    /// fits the list: the invariant that every list keeps at all times.
    #[verifier::type_invariant]
    pub open spec fn wf(&self) -> bool {
        &&& unique_names(self.entries())
        &&& tags_distinct(self.entries())
        &&& undo_consistent(self.last_change())
    }

    /// Every task of the list has an entry under its name, and no other.
    pub proof fn lemma_map_size(&self)
        requires
            self.wf(),
        ensures
            self.map().dom().finite(),
            self.map().len() == self.entries().len(),
        decreases self.entries().len(),
    {
        lemma_map_size_of(self.entries());
    }

    /// An empty list with nothing to take back.
    pub fn new() -> (r: TodoList)
        ensures
            r.wf(),
            r.entries() == Seq::<ItemView>::empty(),
            r.map() == Map::<Seq<char>, ItemView>::empty(),
            r.last_change() is None,
    {
        let r = TodoList { items: Vec::new(), undo_action: None, clock: None };
        assert(r.entries() =~= Seq::<ItemView>::empty());
        assert(r.map() =~= Map::<Seq<char>, ItemView>::empty());
        r
    }

    /// Where the task named `key` stands.
    fn position(&self, key: &String) -> (r: Option<usize>)
        ensures
            match r {
                Some(i) => i < self.entries().len() && self.entries()[i as int].name == key@,
                None => !has_key(self.entries(), key@),
            },
    {
        let mut i: usize = 0;
        while i < self.items.len()
            invariant
                0 <= i <= self.items.len(),
                forall|j: int| 0 <= j < i ==> self.items@[j].name@ != key@,
            decreases self.items.len() - i,
        {
            if self.items[i].name == *key {
                return Some(i);
            }
            i = i + 1;
        }
        assert(!has_key(self.entries(), key@)) by {
            if has_key(self.entries(), key@) {
                let j = choose|j: int| 0 <= j < self.entries().len() && (#[trigger] self.entries()[j]).name == key@;
            }
        }
        None
    }

    /// The number of tasks.
    pub fn len(&self) -> (r: usize)
        ensures
            r == self.map().len(),
            r == self.entries().len(),
    {
        proof {
            use_type_invariant(&*self);
        }
        proof {
            self.lemma_map_size();
        }
        self.items.len()
    }

    /// Whether the list holds no task.
    pub fn is_empty(&self) -> (r: bool)
        ensures
            r == (self.map().len() == 0),
            r == (self.entries().len() == 0),
    {
        proof {
            use_type_invariant(&*self);
        }
        proof {
            self.lemma_map_size();
        }
        self.items.len() == 0
    }
}

proof fn lemma_map_size_of(s: Seq<ItemView>)
    requires
        unique_names(s),
    ensures
        as_map(s).dom().finite(),
        as_map(s).len() == s.len(),
    decreases s.len(),
{
    if s.len() == 0 {
        assert(as_map(s).dom() =~= Set::<Seq<char>>::empty());
    } else {
        let p = s.drop_last();
        assert(unique_names(p)) by {
            assert forall|i: int, j: int| 0 <= i < p.len() && 0 <= j < p.len() && i != j implies (#[trigger] p[i]).name != (#[trigger] p[j]).name by {}
        }
        lemma_map_size_of(p);
        assert(!has_key(p, s.last().name)) by {
            if has_key(p, s.last().name) {
                let j = choose|j: int| 0 <= j < p.len() && (#[trigger] p[j]).name == s.last().name;
            }
        }
        lemma_map_push(p, s.last());
        assert(p.push(s.last()) =~= s);
    }
}

/// The tasks of `m` after the change `a` has been taken back.
pub open spec fn undone_map(m: Map<Seq<char>, ItemView>, a: UndoView) -> Map<Seq<char>, ItemView> {
    match a {
        UndoView::Add { key } => m.remove(key),
        UndoView::Edit { key, new_key, previous_item } => m.remove(new_key).insert(key, previous_item),
        UndoView::MarkDone { key, previous_item } => m.insert(key, previous_item),
        UndoView::MarkTodo { key, previous_item } => m.insert(key, previous_item),
        UndoView::Delete { key, previous_item } => m.insert(key, previous_item),
        UndoView::Clear { removed } => m.union_prefer_right(map_of_items(removed)),
    }
}

/// The other status.
pub open spec fn other_status(st: Status) -> Status {
    match st {
        Status::Todo => Status::Done,
        Status::Done => Status::Todo,
    }
}

/// The tasks of `s` that a clear leaves: none, or those of status `kept`.
pub open spec fn left_by_clear(s: Seq<ItemView>, kept: Option<Status>) -> Seq<ItemView> {
    match kept {
        None => seq![],
        Some(st) => with_status(s, st),
    }
}

/// The tasks of `s` that a clear removes: all, or those not of status
/// `kept`.
pub open spec fn removed_by_clear(s: Seq<ItemView>, kept: Option<Status>) -> Seq<ItemView> {
    match kept {
        None => s,
        Some(st) => with_status(s, other_status(st)),
    }
}

/// What clearing `old` down to the tasks of status `kept` (or to nothing)
/// does, giving `new` and the count `r` of removed tasks: where some went,
/// their removal becomes the change that `undo` takes back; otherwise the
/// earlier change stays.
pub open spec fn clear_outcome(old: TodoList, new: TodoList, kept: Option<Status>, r: usize) -> bool {
    &&& new.entries() == left_by_clear(old.entries(), kept)
    &&& r == removed_by_clear(old.entries(), kept).len()
    &&& new.last_change() == if r > 0 {
        Some(UndoView::Clear { removed: removed_by_clear(old.entries(), kept) })
    } else {
        old.last_change()
    }
}

/// The tasks of `s` are those of one status and those of the other.
pub proof fn lemma_status_split(s: Seq<ItemView>, st: Status)
    ensures
        with_status(s, st).len() + with_status(s, other_status(st)).len() == s.len(),
    decreases s.len(),
{
    if s.len() > 0 {
        lemma_status_split(s.drop_last(), st);
    }
}

/// What taking back the last change of `old` does, giving `new` and the
/// reply `r`.
pub open spec fn undo_outcome(old: TodoList, new: TodoList, r: Result<(), String>) -> bool {
    match old.last_change() {
        None => {
            &&& r matches Err(e) && e@ == "Nothing to undo!"@
            &&& new == old
        },
        Some(a) => {
            &&& r is Ok
            &&& new.map() == undone_map(old.map(), a)
            &&& new.last_change() is None
        },
    }
}

/// What marking the task `key` of `old` as `value` does, giving `new` and
/// the reply `r`.
pub open spec fn mark_outcome(old: TodoList, new: TodoList, key: Seq<char>, value: Status, r: Result<String, String>) -> bool {
    &&& r is Ok <==> old.map().contains_key(key)
    &&& match r {
        Ok(k) => {
            &&& k@ == key
            &&& new.map() == old.map().insert(key, with_new_status(old.map()[key], value))
            &&& new.last_change() == Some(
                match value {
                    Status::Todo => UndoView::MarkTodo { key, previous_item: old.map()[key] },
                    Status::Done => UndoView::MarkDone { key, previous_item: old.map()[key] },
                },
            )
        },
        Err(e) => e@ == key && new == old,
    }
}

/// What removing the task `key` of `old` does, giving `new` and the reply
/// `r`.
pub open spec fn remove_outcome(old: TodoList, new: TodoList, key: Seq<char>, r: Result<String, String>) -> bool {
    &&& r is Ok <==> old.map().contains_key(key)
    &&& match r {
        Ok(k) => {
            &&& k@ == key
            &&& new.map() == old.map().remove(key)
            &&& new.last_change() == Some(UndoView::Delete { key, previous_item: old.map()[key] })
        },
        Err(e) => e@ == key && new == old,
    }
}

/// What renaming the task `old_key` of `old` to `new_key` does, giving
/// `new` and the reply `r`.
pub open spec fn edit_outcome(
    old: TodoList,
    new: TodoList,
    old_key: Seq<char>,
    new_key: Seq<char>,
    r: Result<String, String>,
) -> bool {
    &&& r is Ok <==> (old.map().contains_key(old_key) && (old_key == new_key
        || !old.map().contains_key(new_key)))
    &&& match r {
        Ok(k) => {
            &&& k@ == new_key
            &&& new.map() == old.map().remove(old_key).insert(
                new_key,
                renamed(old.map()[old_key], new_key),
            )
            &&& new.last_change() == Some(
                UndoView::Edit { key: old_key, new_key, previous_item: old.map()[old_key] },
            )
        },
        Err(e) => {
            &&& new == old
            &&& if old_key != new_key && old.map().contains_key(new_key) {
                e@ == "Task '"@ + new_key + "' already exists"@
            } else {
                e@ == "Task '"@ + old_key + "' not found"@
            }
        },
    }
}

/// The task `it` with status `st`.
pub open spec fn with_new_status(it: ItemView, st: Status) -> ItemView {
    ItemView { status: st, ..it }
}

/// The task `it` under the name `name`.
pub open spec fn renamed(it: ItemView, name: Seq<char>) -> ItemView {
    ItemView { name: name, ..it }
}

pub proof fn lemma_with_status(s: Seq<ItemView>, st: Status)
    ensures
        with_status(s, st).len() <= s.len(),
        forall|k: Seq<char>| has_key(with_status(s, st), k) ==> has_key(s, k),
        forall|i: int| 0 <= i < with_status(s, st).len() ==> (#[trigger] with_status(s, st)[i]).status == st,
        unique_names(s) ==> unique_names(with_status(s, st)),
        tags_distinct(s) ==> tags_distinct(with_status(s, st)),
    decreases s.len(),
{
    if s.len() > 0 {
        let p = s.drop_last();
        lemma_with_status(p, st);
        if tags_distinct(s) {
            assert(tags_distinct(p)) by {
                assert forall|i: int| 0 <= i < p.len() implies (#[trigger] p[i]).tags.no_duplicates() by {
                    assert(p[i] == s[i]);
                }
            }
            let w = with_status(p, st);
            assert(s.last().tags.no_duplicates()) by {
                assert(s[s.len() - 1] == s.last());
            }
            if s.last().status == st {
                assert forall|i: int| 0 <= i < w.push(s.last()).len() implies (#[trigger] w.push(s.last())[i]).tags.no_duplicates() by {
                    if i < w.len() {
                        assert(w.push(s.last())[i] == w[i]);
                    }
                }
            }
        }
        assert forall|k: Seq<char>| has_key(p, k) implies has_key(s, k) by {
            let j = choose|j: int| 0 <= j < p.len() && (#[trigger] p[j]).name == k;
        }
        if unique_names(s) {
            assert(unique_names(p)) by {
                assert forall|i: int, j: int| 0 <= i < p.len() && 0 <= j < p.len() && i != j implies (#[trigger] p[i]).name != (#[trigger] p[j]).name by {}
            }
            if s.last().status == st {
                assert(!has_key(p, s.last().name)) by {
                    if has_key(p, s.last().name) {
                        let j = choose|j: int| 0 <= j < p.len() && (#[trigger] p[j]).name == s.last().name;
                    }
                }
                lemma_map_push(with_status(p, st), s.last());
            }
        }
        if s.last().status == st {
            let w = with_status(p, st);
            assert forall|k: Seq<char>| has_key(w.push(s.last()), k) implies has_key(s, k) by {
                let j = choose|j: int| 0 <= j < w.push(s.last()).len() && (#[trigger] w.push(s.last())[j]).name == k;
                if j < w.len() {
                } else {
                }
            }
            assert forall|i: int| 0 <= i < w.push(s.last()).len() implies (#[trigger] w.push(s.last())[i]).status == st by {
                if i < w.len() {
                }
            }
        }
    }
}

impl TodoList {
    /// Takes the stored tasks out, leaving none.
    fn take_items(&mut self) -> (r: Vec<TodoItem>)
        ensures
            item_views(r@) == old(self).entries(),
            final(self).entries() == Seq::<ItemView>::empty(),
            final(self).undo_action == old(self).undo_action,
            final(self).clock == old(self).clock,
    {
        proof {
            use_type_invariant(&*self);
        }
        let mut items: Vec<TodoItem> = Vec::new();
        std::mem::swap(&mut items, &mut self.items);
        assert(item_views(self.items@) =~= Seq::<ItemView>::empty());
        items
    }

    /// Removes the task named `key`, where there is one.
    fn remove_key(&mut self, key: &String)
        requires
            unique_names(old(self).entries()),
            tags_distinct(old(self).entries()),
        ensures
            unique_names(final(self).entries()),
            tags_distinct(final(self).entries()),
            final(self).map() == old(self).map().remove(key@),
            final(self).undo_action == old(self).undo_action,
    {
        proof {
            use_type_invariant(&*self);
        }
        match self.position(key) {
            None => {
                assert(self.map() =~= self.map().remove(key@));
            },
            Some(i) => {
                let ghost s = self.entries();
                let mut items = self.take_items();
                items.remove(i);
                assert(item_views(items@) =~= s.remove(i as int));
                proof {
                    lemma_map_remove(s, i as int);
                }
                self.items = items;
            },
        }
    }

    /// Stores `item` under its name, in place of any task of that name.
    fn upsert(&mut self, item: TodoItem)
        requires
            unique_names(old(self).entries()),
            tags_distinct(old(self).entries()),
            item@.tags.no_duplicates(),
        ensures
            unique_names(final(self).entries()),
            tags_distinct(final(self).entries()),
            final(self).map() == old(self).map().insert(item.name@, item@),
            final(self).undo_action == old(self).undo_action,
            final(self).clock == old(self).clock,
    {
        proof {
            use_type_invariant(&*self);
        }
        let ghost s = self.entries();
        let ghost x = item@;
        match self.position(&item.name) {
            None => {
                let mut items = self.take_items();
                items.push(item);
                assert(item_views(items@) =~= s.push(x));
                proof {
                    lemma_map_push(s, x);
                }
                self.items = items;
            },
            Some(i) => {
                let mut items = self.take_items();
                items.set(i, item);
                assert(item_views(items@) =~= s.update(i as int, x));
                proof {
                    lemma_map_update(s, i as int, x);
                    assert(as_map(s).remove(s[i as int].name).insert(x.name, x) =~= as_map(s).insert(x.name, x));
                }
                self.items = items;
            },
        }
    }

    /// Marks the task named `key` as `value`. Fails with `key` itself where
    /// no task has that name.
    pub fn mark(&mut self, key: String, value: Status) -> (r: Result<String, String>)
        ensures
            mark_outcome(*old(self), *final(self), key@, value, r),
    {
        proof {
            use_type_invariant(&*self);
        }
        match self.position(&key) {
            None => {
                Err(key)
            },
            Some(i) => {
                let ghost s = self.entries();
                proof {
                    lemma_key_index(s, i as int);
                }
                let prev = self.items[i].duplicate();
                let mut item = self.items[i].duplicate();
                item.status = value;
                let ghost x = item@;
                self.undo_action = Some(
                    match value {
                        Status::Todo => UndoAction::MarkTodo { key: key.clone(), previous_item: prev },
                        Status::Done => UndoAction::MarkDone { key: key.clone(), previous_item: prev },
                    },
                );
                let mut items = self.take_items();
                items.set(i, item);
                assert(item_views(items@) =~= s.update(i as int, x));
                proof {
                    lemma_map_update(s, i as int, x);
                    assert(as_map(s).remove(s[i as int].name).insert(x.name, x) =~= as_map(s).insert(x.name, x));
                }
                self.items = items;
                Ok(key)
            },
        }
    }

    /// Removes the task named `key`. Fails with `key` itself where no task
    /// has that name.
    pub fn remove(&mut self, key: String) -> (r: Result<String, String>)
        ensures
            remove_outcome(*old(self), *final(self), key@, r),
    {
        proof {
            use_type_invariant(&*self);
        }
        match self.position(&key) {
            None => {
                Err(key)
            },
            Some(i) => {
                let ghost s = self.entries();
                proof {
                    lemma_key_index(s, i as int);
                }
                let prev = self.items[i].duplicate();
                self.undo_action = Some(UndoAction::Delete { key: key.clone(), previous_item: prev });
                let mut items = self.take_items();
                items.remove(i);
                assert(item_views(items@) =~= s.remove(i as int));
                proof {
                    lemma_map_remove(s, i as int);
                }
                self.items = items;
                Ok(key)
            },
        }
    }

    /// Renames the task `old_key` to `new_key`. Fails where another task is
    /// already called `new_key`, or where no task is called `old_key`.
    pub fn edit(&mut self, old_key: String, new_key: String) -> (r: Result<String, String>)
        ensures
            edit_outcome(*old(self), *final(self), old_key@, new_key@, r),
    {
        proof {
            use_type_invariant(&*self);
        }
        if !(old_key == new_key) {
            if let Some(_) = self.position(&new_key) {
                return Err(concat3("Task '", new_key.as_str(), "' already exists"));
            }
        }
        match self.position(&old_key) {
            None => Err(concat3("Task '", old_key.as_str(), "' not found")),
            Some(i) => {
                let ghost s = self.entries();
                proof {
                    lemma_key_index(s, i as int);
                }
                let prev = self.items[i].duplicate();
                let mut item = self.items[i].duplicate();
                item.name = new_key.clone();
                let ghost x = item@;
                self.undo_action = Some(
                    UndoAction::Edit { key: old_key, new_key: new_key.clone(), previous_item: prev },
                );
                let mut items = self.take_items();
                items.set(i, item);
                assert(item_views(items@) =~= s.update(i as int, x));
                proof {
                    lemma_map_update(s, i as int, x);
                }
                self.items = items;
                Ok(new_key)
            },
        }
    }

    /// Removes every task; gives how many there were. Where there were
    /// some, the removal is the change that `undo` takes back.
    pub fn clear_all(&mut self) -> (r: usize)
        ensures
            r == old(self).map().len(),
            final(self).entries() == Seq::<ItemView>::empty(),
            final(self).map() == Map::<Seq<char>, ItemView>::empty(),
            clear_outcome(*old(self), *final(self), None, r),
    {
        proof {
            use_type_invariant(&*self);
        }
        proof {
            self.lemma_map_size();
        }
        let n = self.items.len();
        let mut removed: Vec<TodoItem> = Vec::new();
        std::mem::swap(&mut removed, &mut self.items);
        if n > 0 {
            self.undo_action = Some(UndoAction::Clear { removed });
        }
        assert(self.entries() =~= Seq::<ItemView>::empty());
        assert(self.map() =~= Map::<Seq<char>, ItemView>::empty());
        n
    }

    /// Keeps only the tasks whose status is `st`; gives how many went.
    /// Where some went, their removal is the change that `undo` takes back.
    fn keep_only(&mut self, st: Status) -> (r: usize)
        ensures
            clear_outcome(*old(self), *final(self), Some(st), r),
            r == old(self).entries().len() - final(self).entries().len(),
    {
        proof {
            use_type_invariant(&*self);
        }
        let ghost s = self.entries();
        let other = match st {
            Status::Todo => Status::Done,
            Status::Done => Status::Todo,
        };
        let mut kept: Vec<TodoItem> = Vec::new();
        let mut dropped: Vec<TodoItem> = Vec::new();
        let n = self.items.len();
        let mut i: usize = 0;
        while i < n
            invariant
                n == self.items.len(),
                s == self.entries(),
                other == other_status(st),
                0 <= i <= n,
                item_views(kept@) == with_status(s.take(i as int), st),
                item_views(dropped@) == with_status(s.take(i as int), other),
            decreases n - i,
        {
            assert(s.take(i + 1).drop_last() =~= s.take(i as int));
            if self.items[i].status == st {
                let ghost before = item_views(kept@);
                kept.push(self.items[i].duplicate());
                assert(item_views(kept@) =~= before.push(s[i as int]));
            } else {
                let ghost before = item_views(dropped@);
                dropped.push(self.items[i].duplicate());
                assert(item_views(dropped@) =~= before.push(s[i as int]));
            }
            i = i + 1;
        }
        assert(s.take(n as int) =~= s);
        proof {
            lemma_with_status(s, st);
            lemma_with_status(s, other);
            lemma_status_split(s, st);
        }
        let removed = dropped.len();
        self.items = kept;
        if removed > 0 {
            self.undo_action = Some(UndoAction::Clear { removed: dropped });
        }
        removed
    }

    /// Removes the finished tasks; gives how many went. Where some went,
    /// their removal is the change that `undo` takes back.
    pub fn clear_done(&mut self) -> (r: usize)
        ensures
            final(self).entries() == with_status(old(self).entries(), Status::Todo),
            r == old(self).entries().len() - final(self).entries().len(),
            clear_outcome(*old(self), *final(self), Some(Status::Todo), r),
    {
        self.keep_only(Status::Todo)
    }

    /// Removes the open tasks; gives how many went. Where some went, their
    /// removal is the change that `undo` takes back.
    pub fn clear_todo(&mut self) -> (r: usize)
        ensures
            final(self).entries() == with_status(old(self).entries(), Status::Done),
            r == old(self).entries().len() - final(self).entries().len(),
            clear_outcome(*old(self), *final(self), Some(Status::Done), r),
    {
        self.keep_only(Status::Done)
    }

    /// Stores each task of `removed` in turn, a later one in place of an
    /// earlier one of the same name.
    fn restore_all(&mut self, removed: &Vec<TodoItem>)
        requires
            unique_names(old(self).entries()),
            tags_distinct(old(self).entries()),
            tags_distinct(item_views(removed@)),
        ensures
            unique_names(final(self).entries()),
            tags_distinct(final(self).entries()),
            final(self).map() == old(self).map().union_prefer_right(map_of_items(item_views(removed@))),
            final(self).undo_action == old(self).undo_action,
    {
        proof {
            use_type_invariant(&*self);
        }
        let ghost m0 = self.map();
        let ghost r = item_views(removed@);
        let n = removed.len();
        let mut i: usize = 0;
        assert(m0.union_prefer_right(map_of_items(r.take(0))) =~= m0);
        while i < n
            invariant
                n == removed.len(),
                r == item_views(removed@),
                tags_distinct(r),
                0 <= i <= n,
                unique_names(self.entries()),
                tags_distinct(self.entries()),
                self.map() == m0.union_prefer_right(map_of_items(r.take(i as int))),
                self.undo_action == old(self).undo_action,
            decreases n - i,
        {
            assert(r.take(i + 1).drop_last() =~= r.take(i as int));
            assert(r[i as int].tags.no_duplicates());
            let ghost before = self.map();
            self.upsert(removed[i].duplicate());
            assert(self.map() =~= m0.union_prefer_right(map_of_items(r.take(i + 1))));
            i = i + 1;
        }
        assert(r.take(n as int) =~= r);
    }

    /// Takes back the last change, once. Fails with `Nothing to undo!` where
    /// there is none.
    pub fn undo(&mut self) -> (r: Result<(), String>)
        ensures
            undo_outcome(*old(self), *final(self), r),
    {
        proof {
            use_type_invariant(&*self);
        }
        let mut action: Option<UndoAction> = None;
        std::mem::swap(&mut action, &mut self.undo_action);
        match action {
            None => {
                return Err(owned("Nothing to undo!"));
            },
            Some(a) => {
                match a {
                    UndoAction::Add { key } => {
                        self.remove_key(&key);
                    },
                    UndoAction::Edit { key, new_key, previous_item } => {
                        self.remove_key(&new_key);
                        self.upsert(previous_item);
                    },
                    UndoAction::MarkTodo { key, previous_item } => {
                        self.upsert(previous_item);
                    },
                    UndoAction::MarkDone { key, previous_item } => {
                        self.upsert(previous_item);
                    },
                    UndoAction::Delete { key, previous_item } => {
                        self.upsert(previous_item);
                    },
                    UndoAction::Clear { removed } => {
                        self.restore_all(&removed);
                    },
                }
            },
        }
        self.undo_action = None;
        Ok(())
    }
}

/// The tasks of `s` with status `st` whose name, in lower case, holds
/// `keyword` in lower case.
pub open spec fn matching(s: Seq<ItemView>, keyword: Seq<char>, st: Status) -> Seq<ItemView>
    decreases s.len(),
{
    if s.len() == 0 {
        seq![]
    } else if s.last().status == st && contains_text(lowercase(s.last().name), lowercase(keyword)) {
        matching(s.drop_last(), keyword, st).push(s.last())
    } else {
        matching(s.drop_last(), keyword, st)
    }
}

/// Every task of `s` has a name of ASCII characters only.
pub open spec fn all_ascii_names(s: Seq<ItemView>) -> bool {
    forall|i: int| 0 <= i < s.len() ==> is_ascii_text(#[trigger] s[i].name)
}

/// The tasks of `s` with status `st` whose name holds `keyword`, each with
/// its ASCII capitals taken as small letters.
pub open spec fn ascii_found(s: Seq<ItemView>, keyword: Seq<char>, st: Status) -> Seq<ItemView> {
    s.filter(
        |it: ItemView| it.status == st && contains_text(ascii_lowered(it.name), ascii_lowered(keyword)),
    )
}

proof fn lemma_matching_ascii(s: Seq<ItemView>, keyword: Seq<char>, st: Status)
    requires
        forall|j: int|
            0 <= j < s.len() ==> is_ascii_text(#[trigger] s[j].name) ==> lowercase(s[j].name)
                == ascii_lowered(s[j].name),
        all_ascii_names(s),
        lowercase(keyword) == ascii_lowered(keyword),
    ensures
        matching(s, keyword, st) == ascii_found(s, keyword, st),
    decreases s.len(),
{
    if s.len() == 0 {
        assert(ascii_found(s, keyword, st) =~= Seq::<ItemView>::empty());
    } else {
        let p = s.drop_last();
        assert forall|j: int| 0 <= j < p.len() implies is_ascii_text(#[trigger] p[j].name) ==> lowercase(p[j].name)
            == ascii_lowered(p[j].name) by {
            assert(p[j] == s[j]);
        }
        assert forall|j: int| 0 <= j < p.len() implies is_ascii_text(#[trigger] p[j].name) by {
            assert(p[j] == s[j]);
        }
        lemma_matching_ascii(p, keyword, st);
        let pred = |it: ItemView| it.status == st && contains_text(ascii_lowered(it.name), ascii_lowered(keyword));
        p.lemma_filter_push(s.last(), pred);
        assert(p.push(s.last()) =~= s);
        assert(s[s.len() - 1] == s.last());
        assert(is_ascii_text(s[s.len() - 1].name));
    }
}

impl TodoList {
    fn find_str(&self, key: &str) -> (r: Option<usize>)
        ensures
            match r {
                Some(i) => {
                    &&& i < self.entries().len()
                    &&& self.map().contains_key(key@)
                    &&& self.map()[key@] == self.entries()[i as int]
                    &&& self.map()[key@] == self.items@[i as int]@
                },
                None => !self.map().contains_key(key@),
            },
    {
        proof {
            use_type_invariant(&*self);
        }
        let k = key.to_owned();
        let r = self.position(&k);
        if let Some(i) = r {
            proof {
                lemma_key_index(self.entries(), i as int);
            }
        }
        r
    }

    /// The status of the task named `key`.
    pub fn status(&self, key: &str) -> (r: Option<Status>)
        ensures
            r == (if self.map().contains_key(key@) {
                Some(self.map()[key@].status)
            } else {
                None
            }),
    {
        match self.find_str(key) {
            Some(i) => Some(self.items[i].status),
            None => None,
        }
    }

    /// The priority of the task named `key`.
    pub fn priority(&self, key: &str) -> (r: Option<Priority>)
        ensures
            r == (if self.map().contains_key(key@) {
                Some(self.map()[key@].priority)
            } else {
                None
            }),
    {
        match self.find_str(key) {
            Some(i) => Some(self.items[i].priority),
            None => None,
        }
    }

    /// The due date of the task named `key`, where it has one.
    pub fn due_date(&self, key: &str) -> (r: Option<DueDate>)
        ensures
            r == (if self.map().contains_key(key@) {
                self.map()[key@].due_date
            } else {
                None
            }),
    {
        match self.find_str(key) {
            Some(i) => self.items[i].due_date,
            None => None,
        }
    }

    /// The tags of the task named `key`.
    pub fn tags(&self, key: &str) -> (r: Option<Vec<String>>)
        ensures
            r is Some <==> self.map().contains_key(key@),
            r matches Some(t) ==> views(t@) == self.map()[key@].tags,
    {
        match self.find_str(key) {
            Some(i) => Some(crate::domain::copy_strings(&self.items[i].tags)),
            None => None,
        }
    }

    fn listing_of(&self, st: Status) -> (r: Vec<ListInfo>)
        ensures
            info_views(r@) == listing(self.entries(), st),
    {
        proof {
            use_type_invariant(&*self);
        }
        let ghost s = self.entries();
        let mut out: Vec<ListInfo> = Vec::new();
        let n = self.items.len();
        let mut i: usize = 0;
        while i < n
            invariant
                n == self.items.len(),
                s == self.entries(),
                0 <= i <= n,
                info_views(out@) == listing(s.take(i as int), st),
            decreases n - i,
        {
            assert(s.take(i + 1).drop_last() =~= s.take(i as int));
            if self.items[i].status == st {
                let ghost before = info_views(out@);
                out.push(self.items[i].info());
                assert(info_views(out@) =~= before.push(info_of(s[i as int])));
                assert(listing(s.take(i + 1), st) =~= listing(s.take(i as int), st).push(info_of(s[i as int])));
            }
            i = i + 1;
        }
        assert(s.take(n as int) =~= s);
        out
    }

    /// The open tasks and the finished tasks, each as listings, in the
    /// order in which the list keeps them.
    pub fn list(&self) -> (r: (Vec<ListInfo>, Vec<ListInfo>))
        ensures
            info_views(r.0@) == listing(self.entries(), Status::Todo),
            info_views(r.1@) == listing(self.entries(), Status::Done),
    {
        (self.listing_of(Status::Todo), self.listing_of(Status::Done))
    }

    fn status_count(&self, st: Status) -> (r: usize)
        ensures
            r == with_status(self.entries(), st).len(),
    {
        proof {
            use_type_invariant(&*self);
        }
        let ghost s = self.entries();
        let n = self.items.len();
        let mut c: usize = 0;
        let mut i: usize = 0;
        while i < n
            invariant
                n == self.items.len(),
                s == self.entries(),
                0 <= i <= n,
                c == with_status(s.take(i as int), st).len(),
            decreases n - i,
        {
            assert(s.take(i + 1).drop_last() =~= s.take(i as int));
            proof {
                lemma_with_status(s.take(i as int), st);
            }
            if self.items[i].status == st {
                c = c + 1;
            }
            i = i + 1;
        }
        assert(s.take(n as int) =~= s);
        c
    }

    /// The number of tasks, of open tasks and of finished tasks.
    pub fn count(&self) -> (r: (usize, usize, usize))
        ensures
            r.0 == self.map().len(),
            r.0 == self.entries().len(),
            r.1 == with_status(self.entries(), Status::Todo).len(),
            r.2 == with_status(self.entries(), Status::Done).len(),
    {
        proof {
            use_type_invariant(&*self);
        }
        let total = self.len();
        (total, self.status_count(Status::Todo), self.status_count(Status::Done))
    }

    /// The open and the finished tasks whose name holds `keyword`, letter
    /// case aside.
    pub fn find(&self, keyword: &str) -> (r: (Vec<ListInfo>, Vec<ListInfo>))
        ensures
            info_views(r.0@) == matching(self.entries(), keyword@, Status::Todo).map_values(
                |it: ItemView| info_of(it),
            ),
            info_views(r.1@) == matching(self.entries(), keyword@, Status::Done).map_values(
                |it: ItemView| info_of(it),
            ),
            all_ascii_names(self.entries()) && is_ascii_text(keyword@) ==> {
                &&& info_views(r.0@) == ascii_found(self.entries(), keyword@, Status::Todo).map_values(
                    |it: ItemView| info_of(it),
                )
                &&& info_views(r.1@) == ascii_found(self.entries(), keyword@, Status::Done).map_values(
                    |it: ItemView| info_of(it),
                )
            },
    {
        proof {
            use_type_invariant(&*self);
        }
        let kw_lower = to_lowercase(keyword);
        let kw = chars_of(kw_lower.as_str());
        let ghost s = self.entries();
        let mut todos: Vec<ListInfo> = Vec::new();
        let mut dones: Vec<ListInfo> = Vec::new();
        let n = self.items.len();
        let mut i: usize = 0;
        while i < n
            invariant
                n == self.items.len(),
                s == self.entries(),
                kw@ == lowercase(keyword@),
                is_ascii_text(keyword@) ==> lowercase(keyword@) == ascii_lowered(keyword@),
                forall|j: int|
                    0 <= j < i ==> is_ascii_text(#[trigger] s[j].name) ==> lowercase(s[j].name)
                        == ascii_lowered(s[j].name),
                0 <= i <= n,
                info_views(todos@) == matching(s.take(i as int), keyword@, Status::Todo).map_values(
                    |it: ItemView| info_of(it),
                ),
                info_views(dones@) == matching(s.take(i as int), keyword@, Status::Done).map_values(
                    |it: ItemView| info_of(it),
                ),
            decreases n - i,
        {
            assert(s.take(i + 1).drop_last() =~= s.take(i as int));
            let name_lower = to_lowercase(self.items[i].name.as_str());
            let name_chars = chars_of(name_lower.as_str());
            if find_text(&name_chars, &kw) {
                let ghost bt = info_views(todos@);
                let ghost bd = info_views(dones@);
                match self.items[i].status {
                    Status::Todo => {
                        todos.push(self.items[i].info());
                        assert(info_views(todos@) =~= bt.push(info_of(s[i as int])));
                    },
                    Status::Done => {
                        dones.push(self.items[i].info());
                        assert(info_views(dones@) =~= bd.push(info_of(s[i as int])));
                    },
                }
            }
            i = i + 1;
        }
        assert(s.take(n as int) =~= s);
        proof {
            if all_ascii_names(s) && is_ascii_text(keyword@) {
                lemma_matching_ascii(s, keyword@, Status::Todo);
                lemma_matching_ascii(s, keyword@, Status::Done);
            }
        }
        (todos, dones)
    }
}

/// The view of an optional string.
pub open spec fn opt_view(o: Option<String>) -> Option<Seq<char>> {
    match o {
        Some(s) => Some(s@),
        None => None,
    }
}

/// The task that adding the text `key` creates.
pub open spec fn new_task(key: Seq<char>, priority: Option<Priority>, due: Option<DueDate>) -> ItemView {
    ItemView {
        name: clean_name(key),
        status: Status::Todo,
        priority: match priority {
            Some(p) => p,
            None => Priority::Medium,
        },
        due_date: due,
        tags: task_tags(key),
    }
}

/// Why adding the text `key` to the tasks `m` fails, if it does: `due_text`
/// is the due date as given, `parsed` the day read from it, and `today` the
/// current day.
pub open spec fn add_error(
    m: Map<Seq<char>, ItemView>,
    key: Seq<char>,
    due_text: Option<Seq<char>>,
    parsed: Option<DueDate>,
    today: DueDate,
) -> Option<Seq<char>> {
    let name = clean_name(key);
    if name.len() == 0 {
        Some("Error: Task name cannot be empty"@)
    } else if m.contains_key(name) {
        Some(
            "The task '"@ + name
                + "' already exist, you can edit it using the command: cargo run -- edit \"My new task\" \"My updated task\""@,
        )
    } else {
        match due_text {
            None => None,
            Some(t) => match parsed {
                None => Some("Error: '"@ + t + "' is not a valid date. Use YYYY-MM-DD"@),
                Some(d) => if d.precedes(today) {
                    Some("Error: Due date must be in the future."@)
                } else {
                    None
                },
            },
        }
    }
}

/// What adding the text `key` does to the list `old`, giving `new` and the
/// reply `r`, for the day `today`.
pub open spec fn add_outcome(
    old: TodoList,
    new: TodoList,
    key: Seq<char>,
    priority: Option<Priority>,
    due_text: Option<Seq<char>>,
    parsed: Option<DueDate>,
    today: DueDate,
    r: Result<(), String>,
) -> bool {
    match add_error(old.map(), key, due_text, parsed, today) {
        Some(msg) => r matches Err(e) && e@ == msg && new == old,
        None => {
            &&& r is Ok
            &&& new.map() == old.map().insert(
                clean_name(key),
                new_task(key, priority, if due_text is Some { parsed } else { None }),
            )
            &&& new.last_change() == Some(UndoView::Add { key: clean_name(key) })
        },
    }
}

/// The day read from an optional due date text.
pub open spec fn parsed_opt(due: Option<String>) -> Option<DueDate> {
    match due {
        Some(s) => parsed_date(s@),
        None => None,
    }
}

/// The day read from an optional due date text, given by its characters.
pub open spec fn parsed_text(due: Option<Seq<char>>) -> Option<DueDate> {
    match due {
        Some(s) => parsed_date(s),
        None => None,
    }
}

/// What adding the text `key` to `old` does, giving `new` and the reply
/// `r`: the clock is read once more, and the addition is judged against
/// the day that reading gave, as `add_outcome` says.
pub open spec fn add_done(
    old: TodoList,
    new: TodoList,
    key: Seq<char>,
    priority: Option<Priority>,
    due_text: Option<Seq<char>>,
    r: Result<(), String>,
) -> bool {
    &&& readings(new.clock()) == next_reading(readings(old.clock()))
    &&& new.clock() matches Some(c) && add_outcome(
        old.reclocked(new.clock()),
        new,
        key,
        priority,
        due_text,
        parsed_text(due_text),
        c.day(),
        r,
    )
}

impl TodoList {
    /// Adds a task from the text `key` on the day `today`, where the due date
    /// text (if any) reads as `parsed`. The words of `key` that start with
    /// `#` become the tags; the others, joined by single spaces, the name.
    /// The priority is Medium unless given. Fails where the name is empty,
    /// already taken, or the due date is unreadable or before `today`.
    pub fn add_on(
        &mut self,
        key: String,
        priority: Option<Priority>,
        due_date_str: Option<String>,
        parsed: Option<DueDate>,
        today: DueDate,
    ) -> (r: Result<(), String>)
        ensures
            add_outcome(
                *old(self),
                *final(self),
                key@,
                priority,
                opt_view(due_date_str),
                parsed,
                today,
                r,
            ),
            final(self).clock() == old(self).clock(),
    {
        proof {
            use_type_invariant(&*self);
        }
        let tags = get_task_tags(key.as_str());
        let name = remove_tags_from_name(key.as_str());
        if name.as_str().is_empty() {
            return Err(owned("Error: Task name cannot be empty"));
        }
        if let Some(_) = self.position(&name) {
            return Err(
                concat3(
                    "The task '",
                    name.as_str(),
                    "' already exist, you can edit it using the command: cargo run -- edit \"My new task\" \"My updated task\"",
                ),
            );
        }
        let mut due: Option<DueDate> = None;
        match due_date_str {
            Some(text) => match parsed {
                None => {
                    return Err(concat3("Error: '", text.as_str(), "' is not a valid date. Use YYYY-MM-DD"));
                },
                Some(d) => {
                    if d.is_before(&today) {
                        return Err(owned("Error: Due date must be in the future."));
                    }
                    due = Some(d);
                },
            },
            None => {},
        }
        let chosen = match priority {
            Some(p) => p,
            None => Priority::Medium,
        };
        self.undo_action = Some(UndoAction::Add { key: name.clone() });
        self.upsert(TodoItem { name, status: Status::Todo, priority: chosen, due_date: due, tags });
        Ok(())
    }

    /// Adds a task from the text `key`, checking its due date (if any)
    /// against today's date: the clock is read once, and the addition is
    /// what `add_on` does for the day read from the text and the day that
    /// reading gave.
    pub fn add(&mut self, key: String, priority: Option<Priority>, due_date_str: Option<String>) -> (r:
        Result<(), String>)
        ensures
            add_done(*old(self), *final(self), key@, priority, opt_view(due_date_str), r),
    {
        let parsed = match &due_date_str {
            Some(text) => parse_due_date(text.as_str()),
            None => None,
        };
        proof {
            use_type_invariant(&*self);
        }
        let reading = ClockReading::read_after(&self.clock);
        let day = reading.date();
        self.clock = Some(reading);
        assert(*self == old(self).reclocked(self.clock()));
        let r = self.add_on(key, priority, due_date_str, parsed, day);
        r
    }
}

impl TodoList {
    /// The tasks as a comma-separated table: a header line, then one line
    /// per task.
    pub fn to_csv(&self) -> (r: String)
        ensures
            r@ == csv_text(self.entries()),
    {
        proof {
            use_type_invariant(&*self);
        }
        let ghost s = self.entries();
        let mut out = chars_of("name,status,priority,due_date,tags\n");
        let n = self.items.len();
        let mut i: usize = 0;
        while i < n
            invariant
                n == self.items.len(),
                s == self.entries(),
                0 <= i <= n,
                out@ == csv_header() + csv_rows(s.take(i as int)),
            decreases n - i,
        {
            assert(s.take(i + 1).drop_last() =~= s.take(i as int));
            push_csv_line(&mut out, &self.items[i]);
            i = i + 1;
        }
        assert(s.take(n as int) =~= s);
        string_of(&out)
    }
}

/// The tasks by name that storing the tasks of `s` one after another gives:
/// a later task replaces an earlier one of the same name.
pub open spec fn map_of_items(s: Seq<ItemView>) -> Map<Seq<char>, ItemView>
    decreases s.len(),
{
    if s.len() == 0 {
        Map::empty()
    } else {
        map_of_items(s.drop_last()).insert(s.last().name, s.last())
    }
}

/// A stored change whose kept tasks carry each tag once, and whose kept
/// task carries the name of the change.
pub open spec fn normalized_change(u: Option<UndoView>) -> Option<UndoView> {
    match u {
        Some(UndoView::Edit { key, new_key, previous_item }) => Some(
            UndoView::Edit { key, new_key, previous_item: ItemView { name: key, ..tidy(previous_item) } },
        ),
        Some(UndoView::MarkDone { key, previous_item }) => Some(
            UndoView::MarkDone { key, previous_item: ItemView { name: key, ..tidy(previous_item) } },
        ),
        Some(UndoView::MarkTodo { key, previous_item }) => Some(
            UndoView::MarkTodo { key, previous_item: ItemView { name: key, ..tidy(previous_item) } },
        ),
        Some(UndoView::Delete { key, previous_item }) => Some(
            UndoView::Delete { key, previous_item: ItemView { name: key, ..tidy(previous_item) } },
        ),
        Some(UndoView::Clear { removed }) => Some(UndoView::Clear { removed: tidy_all(removed) }),
        other => other,
    }
}

/// The view of an optional stored change.
pub open spec fn change_view(u: Option<UndoAction>) -> Option<UndoView> {
    match u {
        Some(a) => Some(a@),
        None => None,
    }
}

/// A copy of `item` under the name `key`, with each tag once.
fn named(item: &TodoItem, key: &String) -> (r: TodoItem)
    ensures
        r@ == (ItemView { name: key@, ..tidy(item@) }),
        r@.tags.no_duplicates(),
{
    let mut t = item.tidied();
    proof {
        crate::domain::lemma_first_occurrences(item@.tags);
    }
    t.name = key.clone();
    t
}

/// Copies of `v`, each with each tag once.
fn tidied_all(v: &Vec<TodoItem>) -> (r: Vec<TodoItem>)
    ensures
        item_views(r@) == tidy_all(item_views(v@)),
        tags_distinct(item_views(r@)),
{
    let mut out: Vec<TodoItem> = Vec::new();
    let mut i: usize = 0;
    while i < v.len()
        invariant
            0 <= i <= v.len(),
            item_views(out@) == tidy_all(item_views(v@)).take(i as int),
        decreases v.len() - i,
    {
        let ghost before = item_views(out@);
        out.push(v[i].tidied());
        assert(item_views(out@) =~= before.push(tidy(v@[i as int]@)));
        assert(tidy_all(item_views(v@)).take(i + 1) =~= tidy_all(item_views(v@)).take(i as int).push(
            tidy(v@[i as int]@),
        ));
        i = i + 1;
    }
    assert(tidy_all(item_views(v@)).take(v.len() as int) =~= tidy_all(item_views(v@)));
    assert forall|k: int| 0 <= k < item_views(out@).len() implies (#[trigger] item_views(out@)[k]).tags.no_duplicates() by {
        crate::domain::lemma_first_occurrences(item_views(v@)[k].tags);
    }
    out
}

impl TodoList {
    /// A list made of stored tasks (a later task replaces an earlier one of
    /// the same name, and a tag given twice counts once) and a stored
    /// change, whose kept task is given the name that the change names.
    pub fn from_parts(items: Vec<TodoItem>, undo_action: Option<UndoAction>) -> (r: TodoList)
        ensures
            r.wf(),
            r.map() == map_of_items(tidy_all(item_views(items@))),
            r.last_change() == normalized_change(change_view(undo_action)),
    {
        let mut list = TodoList::new();
        let ghost s = tidy_all(item_views(items@));
        let n = items.len();
        let mut i: usize = 0;
        while i < n
            invariant
                n == items.len(),
                s == tidy_all(item_views(items@)),
                0 <= i <= n,
                unique_names(list.entries()),
                tags_distinct(list.entries()),
                list.undo_action is None,
                list.map() == map_of_items(s.take(i as int)),
            decreases n - i,
        {
            assert(s.take(i + 1).drop_last() =~= s.take(i as int));
            proof {
                crate::domain::lemma_first_occurrences(item_views(items@)[i as int].tags);
            }
            list.upsert(items[i].tidied());
            i = i + 1;
        }
        assert(s.take(n as int) =~= s);
        let normalized = match undo_action {
            Some(UndoAction::Edit { key, new_key, previous_item }) => {
                let p = named(&previous_item, &key);
                Some(UndoAction::Edit { key, new_key, previous_item: p })
            },
            Some(UndoAction::MarkDone { key, previous_item }) => {
                let p = named(&previous_item, &key);
                Some(UndoAction::MarkDone { key, previous_item: p })
            },
            Some(UndoAction::MarkTodo { key, previous_item }) => {
                let p = named(&previous_item, &key);
                Some(UndoAction::MarkTodo { key, previous_item: p })
            },
            Some(UndoAction::Delete { key, previous_item }) => {
                let p = named(&previous_item, &key);
                Some(UndoAction::Delete { key, previous_item: p })
            },
            Some(UndoAction::Clear { removed }) => {
                let kept = tidied_all(&removed);
                Some(UndoAction::Clear { removed: kept })
            },
            other => other,
        };
        list.undo_action = normalized;
        list
    }

    /// The stored tasks, in the order in which the list keeps them.
    pub fn tasks(&self) -> (r: &Vec<TodoItem>)
        ensures
            item_views(r@) == self.entries(),
    {
        &self.items
    }

    /// The stored change that `undo` would take back.
    pub fn last_action(&self) -> (r: &Option<UndoAction>)
        ensures
            change_view(*r) == self.last_change(),
    {
        &self.undo_action
    }
}

} // verus!
