//! Reading tags (`#word`) out of a task's text.

use vstd::prelude::*;
use crate::text::{chars_of, char_views, join, join_chars, split_words, string_of, contains_chars, views, words};

verus! {

/// A word that starts with `#` names a tag.
pub open spec fn is_tag_word(w: Seq<char>) -> bool {
    w.len() > 0 && w[0] == '#'
}

/// The tags that the text of a task names: each word that starts with `#`,
/// without its `#`.
pub open spec fn tag_set(task: Seq<char>) -> Set<Seq<char>> {
    Set::new(
        |t: Seq<char>|
            exists|i: int|
                0 <= i < words(task).len() && is_tag_word(#[trigger] words(task)[i]) && t
                    == words(task)[i].drop_first(),
    )
}

/// The tags among `ws`, each once, in the order of their first word.
pub open spec fn tags_in(ws: Seq<Seq<char>>) -> Seq<Seq<char>>
    decreases ws.len(),
{
    if ws.len() == 0 {
        seq![]
    } else {
        let earlier = tags_in(ws.drop_last());
        let w = ws.last();
        if is_tag_word(w) && !earlier.contains(w.drop_first()) {
            earlier.push(w.drop_first())
        } else {
            earlier
        }
    }
}

/// The tags of a task's text, each once, in the order of their first
/// appearance.
pub open spec fn task_tags(task: Seq<char>) -> Seq<Seq<char>> {
    tags_in(words(task))
}

/// The words among `ws` that are not tags.
pub open spec fn untagged_words(ws: Seq<Seq<char>>) -> Seq<Seq<char>> {
    ws.filter(|w: Seq<char>| !is_tag_word(w))
}

/// The words of a task's text that are not tags.
pub open spec fn name_words(task: Seq<char>) -> Seq<Seq<char>> {
    untagged_words(words(task))
}

/// The name of a task: its words that are not tags, separated by one space.
pub open spec fn clean_name(task: Seq<char>) -> Seq<char> {
    join(name_words(task), seq![' '])
}

/// The distinct tags among `ws`, as character sequences.
fn tags_of_words(ws: &Vec<Vec<char>>) -> (r: Vec<Vec<char>>)
    ensures
        char_views(r@) == tags_in(char_views(ws@)),
        char_views(r@).no_duplicates(),
        forall|t: Seq<char>|
            char_views(r@).contains(t) <==> exists|i: int|
                0 <= i < ws@.len() && is_tag_word(#[trigger] char_views(ws@)[i]) && t
                    == char_views(ws@)[i].drop_first(),
{
    let mut out: Vec<Vec<char>> = Vec::new();
    let mut i: usize = 0;
    while i < ws.len()
        invariant
            0 <= i <= ws.len(),
            char_views(out@) == tags_in(char_views(ws@).take(i as int)),
            char_views(out@).no_duplicates(),
            forall|t: Seq<char>|
                char_views(out@).contains(t) <==> exists|j: int|
                    0 <= j < i && is_tag_word(#[trigger] char_views(ws@)[j]) && t
                        == char_views(ws@)[j].drop_first(),
        decreases ws.len() - i,
    {
        let w = &ws[i];
        assert(char_views(ws@).take(i + 1).drop_last() =~= char_views(ws@).take(i as int));
        assert(char_views(ws@).take(i + 1).last() == w@);
        if w.len() > 0 && w[0] == '#' {
            let mut tag: Vec<char> = Vec::new();
            let mut k: usize = 1;
            while k < w.len()
                invariant
                    1 <= k <= w.len(),
                    tag@ == w@.subrange(1, k as int),
                decreases w.len() - k,
            {
                tag.push(w[k]);
                k = k + 1;
            }
            if !contains_chars(&out, &tag) {
                let ghost before = char_views(out@);
                out.push(tag);
                assert(char_views(out@) == before.push(w@.drop_first()));
                assert forall|t: Seq<char>|
                    char_views(out@).contains(t) <==> exists|j: int|
                        0 <= j < i + 1 && is_tag_word(#[trigger] char_views(ws@)[j]) && t
                            == char_views(ws@)[j].drop_first() by {
                    if char_views(out@).contains(t) && !before.contains(t) {
                        let m = choose|m: int| 0 <= m < char_views(out@).len() && char_views(out@)[m] == t;
                        if m < before.len() {
                        }
                    }
                    if before.contains(t) {
                        let m = choose|m: int| 0 <= m < before.len() && before[m] == t;
                        assert(char_views(out@)[m] == t);
                    }
                    if t == w@.drop_first() {
                        assert(char_views(out@)[before.len() as int] == t);
                    }
                }
            }
        }
        i = i + 1;
    }
    assert(char_views(ws@).take(ws.len() as int) =~= char_views(ws@));
    out
}

/// The tags that a task's text names, each once: every word that starts
/// with `#`, without its `#`.
pub fn get_task_tags(task: &str) -> (r: Vec<String>)
    ensures
        views(r@) == task_tags(task@),
        views(r@).no_duplicates(),
        views(r@).to_set() == tag_set(task@),
{
    let chars = chars_of(task);
    let ws = split_words(&chars);
    let tags = tags_of_words(&ws);
    let mut out: Vec<String> = Vec::new();
    let mut i: usize = 0;
    while i < tags.len()
        invariant
            0 <= i <= tags.len(),
            views(out@) == char_views(tags@).take(i as int),
        decreases tags.len() - i,
    {
        let ghost before = views(out@);
        let s = string_of(&tags[i]);
        out.push(s);
        assert(views(out@) =~= before.push(char_views(tags@)[i as int]));
        assert(char_views(tags@).take(i + 1) =~= char_views(tags@).take(i as int).push(char_views(tags@)[i as int]));
        i = i + 1;
    }
    assert(char_views(tags@).take(tags.len() as int) == char_views(tags@));
    assert(char_views(ws@).take(ws.len() as int) =~= char_views(ws@));
    assert(views(out@).to_set() =~= tag_set(task@)) by {
        assert forall|t: Seq<char>| views(out@).to_set().contains(t) <==> tag_set(task@).contains(t) by {
            if tag_set(task@).contains(t) {
                let j = choose|j: int|
                    0 <= j < words(task@).len() && is_tag_word(#[trigger] words(task@)[j]) && t
                        == words(task@)[j].drop_first();
            }
        }
    }
    out
}

/// The name of a task: its text without the tag words, the other words
/// separated by one space.
pub fn remove_tags_from_name(task: &str) -> (r: String)
    ensures
        r@ == clean_name(task@),
{
    let chars = chars_of(task);
    let ws = split_words(&chars);
    let mut kept: Vec<Vec<char>> = Vec::new();
    let mut i: usize = 0;
    while i < ws.len()
        invariant
            0 <= i <= ws.len(),
            char_views(kept@) == char_views(ws@).take(i as int).filter(
                |w: Seq<char>| !is_tag_word(w),
            ),
        decreases ws.len() - i,
    {
        let ghost before = char_views(ws@).take(i as int);
        assert(char_views(ws@).take(i + 1) == before.push(char_views(ws@)[i as int]));
        assert(char_views(ws@).take(i + 1).filter(|w: Seq<char>| !is_tag_word(w)) == if is_tag_word(
            char_views(ws@)[i as int],
        ) {
            before.filter(|w: Seq<char>| !is_tag_word(w))
        } else {
            before.filter(|w: Seq<char>| !is_tag_word(w)).push(char_views(ws@)[i as int])
        }) by {
            before.lemma_filter_push(char_views(ws@)[i as int], |w: Seq<char>| !is_tag_word(w));
        }
        let w = &ws[i];
        if !(w.len() > 0 && w[0] == '#') {
            let ghost kb = char_views(kept@);
            let wc = w.clone();
            assert(wc@ =~= w@);
            kept.push(wc);
            assert(char_views(kept@) =~= kb.push(w@));
        }
        i = i + 1;
    }
    assert(char_views(ws@).take(ws.len() as int) == char_views(ws@));
    let sep: Vec<char> = vec![' '];
    assert(sep@ =~= seq![' ']);
    let joined = join_chars(&kept, &sep);
    string_of(&joined)
}

} // verus!
