//! The display style of each character of the document, given the matches
//! of the current search.

use crate::index::positions;
use std::collections::HashSet;
use vstd::prelude::*;
use vstd::string::StrSliceExecFns;

verus! {

broadcast use vstd::std_specs::hash::group_hash_axioms;

/// How a character is displayed.
#[derive(Clone, Copy, Debug, PartialEq, Eq, Structural)]
pub enum TextStyle {
    Normal,
    Highlighted,
}

/// Whether offset `at` lies inside a match: some match of the given
/// `length` starts at or before it and ends after it.
pub open spec fn covered(matches: Set<int>, length: int, at: int) -> bool {
    exists|start: int| matches.contains(start) && start <= at < start + length
}

/// The style of the character at offset `at`.
pub open spec fn style_at(matches: Set<int>, length: int, at: int) -> TextStyle {
    if covered(matches, length, at) {
        TextStyle::Highlighted
    } else {
        TextStyle::Normal
    }
}

/// One style decision for each of the `count` characters of a document.
pub open spec fn text_styles(count: nat, matches: Set<int>, length: int) -> Seq<TextStyle> {
    Seq::new(count, |at: int| style_at(matches, length, at))
}

/// What the renderer remembers between characters: the last match start
/// before offset `at`, if there is one.
spec fn is_latest_before(matches: Set<usize>, latest: Option<usize>, at: int) -> bool {
    match latest {
        Some(start) => start < at && matches.contains(start) && forall|other: usize|
            matches.contains(other) && other < at ==> other <= start,
        None => forall|other: usize| matches.contains(other) ==> other >= at,
    }
}

/// Styles the document for display, one decision per character: a
/// character is highlighted when it lies inside a match, that is within
/// the length of the query from an offset in `highlight_indexes`, and
/// normal otherwise. With an empty query every character is normal.
pub fn get_text_body(
    text_body: &String,
    highlight_indexes: &HashSet<usize>,
    search_text: &String,
) -> (styles: Vec<TextStyle>)
    ensures
        styles@ == text_styles(
            text_body@.len(),
            positions(highlight_indexes@),
            search_text@.len() as int,
        ),
        styles@.len() == text_body@.len(),
        search_text@.len() == 0 ==> forall|at: int|
            0 <= at < styles@.len() ==> styles@[at] == TextStyle::Normal,
{
    let count = text_body.as_str().unicode_len();
    let length = search_text.as_str().unicode_len();
    let ghost matches = positions(highlight_indexes@);
    let ghost wanted = text_styles(text_body@.len(), matches, length as int);
    let mut styles: Vec<TextStyle> = Vec::new();
    let mut latest: Option<usize> = None;
    let mut at: usize = 0;
    while at < count
        invariant
            at <= count,
            count == text_body@.len(),
            matches == positions(highlight_indexes@),
            wanted == text_styles(text_body@.len(), matches, length as int),
            is_latest_before(highlight_indexes@, latest, at as int),
            styles@ == wanted.take(at as int),
        decreases count - at,
    {
        if highlight_indexes.contains(&at) {
            latest = Some(at);
        }
        let inside = match latest {
            Some(start) => at - start < length,
            None => false,
        };
        proof {
            if inside {
                assert(matches.contains(latest->0 as int));
            }
            if covered(matches, length as int, at as int) {
                let start = choose|start: int|
                    matches.contains(start) && start <= at < start + length;
                assert(highlight_indexes@.contains(start as usize));
            }
        }
        let style = if inside {
            TextStyle::Highlighted
        } else {
            TextStyle::Normal
        };
        styles.push(style);
        at += 1;
        assert(styles@ =~= wanted.take(at as int));
    }
    assert(styles@ =~= wanted);
    styles
}

} // verus!
