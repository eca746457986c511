//! The values a task list is made of.

use vstd::prelude::*;
use crate::text::views;

verus! {

/// Whether a task is still open or already finished.
#[derive(PartialEq, Eq, Structural, Debug, Clone, Copy)]
pub enum Status {
    Todo,
    Done,
}

/// How urgent a task is.
#[derive(PartialEq, Eq, Structural, Debug, Clone, Copy)]
pub enum Priority {
    Low,
    Medium,
    High,
}

impl Priority {
    /// The name of a priority, capitalised.
    pub open spec fn name_text(self) -> Seq<char> {
        match self {
            Priority::Low => "Low"@,
            Priority::Medium => "Medium"@,
            Priority::High => "High"@,
        }
    }

    /// The name of a priority, capitalised, as shown in menus.
    pub fn label(&self) -> (r: String)
        ensures
            r@ == self.name_text(),
    {
        match self {
            Priority::Low => String::from_str("Low"),
            Priority::Medium => String::from_str("Medium"),
            Priority::High => String::from_str("High"),
        }
    }
}

/// A calendar day, written as year, month (1 to 12) and day of the month.
#[derive(PartialEq, Eq, Structural, Debug, Clone, Copy)]
pub struct DueDate {
    pub year: i32,
    pub month: u32,
    pub day: u32,
}

impl DueDate {
    /// Days are ordered by year, then month, then day.
    pub open spec fn precedes(self, other: DueDate) -> bool {
        ||| self.year < other.year
        ||| (self.year == other.year && self.month < other.month)
        ||| (self.year == other.year && self.month == other.month && self.day < other.day)
    }

    /// Whether `self` comes strictly before `other`.
    pub fn is_before(&self, other: &DueDate) -> (r: bool)
        ensures
            r == self.precedes(*other),
    {
        if self.year != other.year {
            self.year < other.year
        } else if self.month != other.month {
            self.month < other.month
        } else {
            self.day < other.day
        }
    }
}

/// A task as it is stored: its name, whether it is done, its priority, an
/// optional due date and its tags.
#[derive(Debug)]
pub struct TodoItem {
    pub name: String,
    pub status: Status,
    pub priority: Priority,
    pub due_date: Option<DueDate>,
    pub tags: Vec<String>,
}

/// The mathematical value of a task.
pub struct ItemView {
    pub name: Seq<char>,
    pub status: Status,
    pub priority: Priority,
    pub due_date: Option<DueDate>,
    pub tags: Seq<Seq<char>>,
}

impl View for TodoItem {
    type V = ItemView;

    open spec fn view(&self) -> ItemView {
        ItemView {
            name: self.name@,
            status: self.status,
            priority: self.priority,
            due_date: self.due_date,
            tags: views(self.tags@),
        }
    }
}

/// Views of stored tasks.
pub open spec fn item_views(v: Seq<TodoItem>) -> Seq<ItemView> {
    v.map_values(|t: TodoItem| t@)
}

/// The texts of `s`, each kept at its first appearance only.
pub open spec fn first_occurrences(s: Seq<Seq<char>>) -> Seq<Seq<char>>
    decreases s.len(),
{
    if s.len() == 0 {
        seq![]
    } else {
        let earlier = first_occurrences(s.drop_last());
        if earlier.contains(s.last()) {
            earlier
        } else {
            earlier.push(s.last())
        }
    }
}

/// The task `it` with each of its tags once, as a set of tags holds them.
pub open spec fn tidy(it: ItemView) -> ItemView {
    ItemView { tags: first_occurrences(it.tags), ..it }
}

/// The tasks of `s`, each with each of its tags once.
pub open spec fn tidy_all(s: Seq<ItemView>) -> Seq<ItemView> {
    s.map_values(|it: ItemView| tidy(it))
}

/// Keeping first appearances leaves no text twice, and changes nothing
/// where no text was there twice.
pub proof fn lemma_first_occurrences(s: Seq<Seq<char>>)
    ensures
        first_occurrences(s).no_duplicates(),
        forall|t: Seq<char>| first_occurrences(s).contains(t) <==> s.contains(t),
        s.no_duplicates() ==> first_occurrences(s) == s,
    decreases s.len(),
{
    if s.len() > 0 {
        let p = s.drop_last();
        lemma_first_occurrences(p);
        let e = first_occurrences(p);
        assert forall|t: Seq<char>| first_occurrences(s).contains(t) <==> s.contains(t) by {
            if s.contains(t) {
                let i = choose|i: int| 0 <= i < s.len() && s[i] == t;
                if i < p.len() {
                    assert(p[i] == t);
                }
            }
            if p.contains(t) {
                let i = choose|i: int| 0 <= i < p.len() && p[i] == t;
                assert(s[i] == t);
            }
            if !e.contains(s.last()) {
                if e.push(s.last()).contains(t) {
                    let i = choose|i: int| 0 <= i < e.push(s.last()).len() && e.push(s.last())[i] == t;
                    if i < e.len() {
                        assert(e[i] == t);
                    }
                }
                if e.contains(t) {
                    let i = choose|i: int| 0 <= i < e.len() && e[i] == t;
                    assert(e.push(s.last())[i] == t);
                }
                assert(e.push(s.last())[e.len() as int] == s.last());
            }
            assert(s[s.len() - 1] == s.last());
        }
        if s.no_duplicates() {
            assert(p.no_duplicates()) by {
                assert forall|i: int, j: int| 0 <= i < p.len() && 0 <= j < p.len() && i != j implies p[i] != p[j] by {
                    assert(p[i] == s[i] && p[j] == s[j]);
                }
            }
            assert(!p.contains(s.last())) by {
                if p.contains(s.last()) {
                    let i = choose|i: int| 0 <= i < p.len() && p[i] == s.last();
                    assert(s[i] == s[s.len() - 1]);
                }
            }
            assert(p.push(s.last()) =~= s);
        }
    }
}

/// Whether `t` is among the texts of `v`.
pub fn has_string(v: &Vec<String>, t: &String) -> (r: bool)
    ensures
        r == views(v@).contains(t@),
{
    let mut i: usize = 0;
    while i < v.len()
        invariant
            0 <= i <= v.len(),
            forall|j: int| 0 <= j < i ==> v@[j]@ != t@,
        decreases v.len() - i,
    {
        if v[i] == *t {
            assert(views(v@)[i as int] == t@);
            return true;
        }
        i = i + 1;
    }
    assert(!views(v@).contains(t@)) by {
        if views(v@).contains(t@) {
            let j = choose|j: int| 0 <= j < views(v@).len() && views(v@)[j] == t@;
            assert(v@[j]@ == t@);
        }
    }
    false
}

/// A copy of the texts of `v`, each at its first appearance only.
pub fn distinct_strings(v: &Vec<String>) -> (r: Vec<String>)
    ensures
        views(r@) == first_occurrences(views(v@)),
{
    let mut out: Vec<String> = Vec::new();
    let mut i: usize = 0;
    while i < v.len()
        invariant
            0 <= i <= v.len(),
            views(out@) == first_occurrences(views(v@).take(i as int)),
        decreases v.len() - i,
    {
        assert(views(v@).take(i + 1).drop_last() =~= views(v@).take(i as int));
        assert(views(v@).take(i + 1).last() == v@[i as int]@);
        if !has_string(&out, &v[i]) {
            let ghost before = views(out@);
            out.push(v[i].clone());
            assert(views(out@) =~= before.push(v@[i as int]@));
        }
        i = i + 1;
    }
    assert(views(v@).take(v.len() as int) =~= views(v@));
    out
}

/// A copy of a list of strings.
pub fn copy_strings(v: &Vec<String>) -> (r: Vec<String>)
    ensures
        views(r@) == views(v@),
{
    let mut out: Vec<String> = Vec::new();
    let mut i: usize = 0;
    while i < v.len()
        invariant
            0 <= i <= v.len(),
            views(out@) == views(v@).take(i as int),
        decreases v.len() - i,
    {
        let ghost before = views(out@);
        out.push(v[i].clone());
        assert(views(out@) =~= before.push(views(v@)[i as int]));
        assert(views(v@).take(i + 1) =~= views(v@).take(i as int).push(views(v@)[i as int]));
        i = i + 1;
    }
    assert(views(v@).take(v.len() as int) =~= views(v@));
    out
}

impl TodoItem {
    /// An identical, separately owned task.
    pub fn duplicate(&self) -> (r: TodoItem)
        ensures
            r@ == self@,
    {
        TodoItem {
            name: self.name.clone(),
            status: self.status,
            priority: self.priority,
            due_date: self.due_date,
            tags: copy_strings(&self.tags),
        }
    }

    /// A separately owned copy of the task with each tag once.
    pub fn tidied(&self) -> (r: TodoItem)
        ensures
            r@ == tidy(self@),
    {
        TodoItem {
            name: self.name.clone(),
            status: self.status,
            priority: self.priority,
            due_date: self.due_date,
            tags: distinct_strings(&self.tags),
        }
    }

    /// The listing of the item.
    pub fn info(&self) -> (r: ListInfo)
        ensures
            r@ == info_of(self@),
    {
        ListInfo {
            name: self.name.clone(),
            priority: self.priority,
            due_date: self.due_date,
            tags: copy_strings(&self.tags),
        }
    }
}

/// What a listing shows of a task: its name, priority, due date and tags.
#[derive(PartialEq, Debug)]
pub struct ListInfo {
    pub name: String,
    pub priority: Priority,
    pub due_date: Option<DueDate>,
    pub tags: Vec<String>,
}

/// The mathematical value of a listed task.
pub struct InfoView {
    pub name: Seq<char>,
    pub priority: Priority,
    pub due_date: Option<DueDate>,
    pub tags: Seq<Seq<char>>,
}

impl View for ListInfo {
    type V = InfoView;

    open spec fn view(&self) -> InfoView {
        InfoView {
            name: self.name@,
            priority: self.priority,
            due_date: self.due_date,
            tags: views(self.tags@),
        }
    }
}

/// The listing of a task.
pub open spec fn info_of(item: ItemView) -> InfoView {
    InfoView { name: item.name, priority: item.priority, due_date: item.due_date, tags: item.tags }
}

/// Views of a sequence of listed tasks.
pub open spec fn info_views(v: Seq<ListInfo>) -> Seq<InfoView> {
    v.map_values(|i: ListInfo| i@)
}

/// The last change made to a list, with what is needed to take it back.
#[derive(Debug)]
pub enum UndoAction {
    Add { key: String },
    Edit { key: String, new_key: String, previous_item: TodoItem },
    MarkDone { key: String, previous_item: TodoItem },
    MarkTodo { key: String, previous_item: TodoItem },
    Delete { key: String, previous_item: TodoItem },
    Clear { removed: Vec<TodoItem> },
}

/// The mathematical value of the last change.
pub enum UndoView {
    Add { key: Seq<char> },
    Edit { key: Seq<char>, new_key: Seq<char>, previous_item: ItemView },
    MarkDone { key: Seq<char>, previous_item: ItemView },
    MarkTodo { key: Seq<char>, previous_item: ItemView },
    Delete { key: Seq<char>, previous_item: ItemView },
    Clear { removed: Seq<ItemView> },
}

impl View for UndoAction {
    type V = UndoView;

    open spec fn view(&self) -> UndoView {
        match self {
            UndoAction::Add { key } => UndoView::Add { key: key@ },
            UndoAction::Edit { key, new_key, previous_item } => UndoView::Edit {
                key: key@,
                new_key: new_key@,
                previous_item: previous_item@,
            },
            UndoAction::MarkDone { key, previous_item } => UndoView::MarkDone {
                key: key@,
                previous_item: previous_item@,
            },
            UndoAction::MarkTodo { key, previous_item } => UndoView::MarkTodo {
                key: key@,
                previous_item: previous_item@,
            },
            UndoAction::Delete { key, previous_item } => UndoView::Delete {
                key: key@,
                previous_item: previous_item@,
            },
            UndoAction::Clear { removed } => UndoView::Clear { removed: item_views(removed@) },
        }
    }
}

/// A copy of a listed task.
pub fn copy_info(i: &ListInfo) -> (r: ListInfo)
    ensures
        r@ == i@,
{
    ListInfo {
        name: i.name.clone(),
        priority: i.priority,
        due_date: i.due_date,
        tags: copy_strings(&i.tags),
    }
}

} // verus!
