//! Literal search over a token index.

use crate::index::{positions, token_index, TokenIndex};
use crate::text::chars_of;
use std::collections::HashSet;
use vstd::prelude::*;
use vstd::std_specs::iter::IteratorSpec;

verus! {

broadcast use vstd::std_specs::hash::group_hash_axioms;

/// Whether the index records every character of `query` at its place when
/// the query is laid down at `start`.
pub open spec fn matches_at(index: Map<char, Set<int>>, query: Seq<char>, start: int) -> bool {
    forall|k: int|
        0 <= k < query.len() ==> index.contains_key(#[trigger] query[k])
            && index[query[k]].contains(start + k)
}

/// The offsets at which a search for `query` in the index finds a match.
/// An empty query finds nothing.
pub open spec fn index_matches(index: Map<char, Set<int>>, query: Seq<char>) -> Set<int> {
    Set::new(|start: int| query.len() > 0 && matches_at(index, query, start))
}

/// Whether `query` stands in `text` at offset `start`, character for
/// character.
pub open spec fn occurs_at(text: Seq<char>, query: Seq<char>, start: int) -> bool {
    &&& 0 <= start
    &&& start + query.len() <= text.len()
    &&& text.subrange(start, start + query.len()) == query
}

/// The offsets at which a non-empty `query` occurs in `text`. Occurrences
/// may overlap. An empty query occurs nowhere.
pub open spec fn occurrences(text: Seq<char>, query: Seq<char>) -> Set<int> {
    Set::new(|start: int| query.len() > 0 && occurs_at(text, query, start))
}

/// Whether a candidate survives a filtering step: moved by `shift`, it is
/// a machine offset that `targets` holds.
pub open spec fn shifted_in(targets: Set<usize>, shift: usize, start: usize) -> bool {
    start + shift <= usize::MAX && targets.contains((start + shift) as usize)
}

/// The candidates that, moved by `shift`, land in `targets`.
pub fn retain_shifted(candidates: &HashSet<usize>, targets: &HashSet<usize>, shift: usize) -> (kept:
    HashSet<usize>)
    ensures
        forall|start: usize|
            kept@.contains(start) <==> candidates@.contains(start) && shifted_in(
                targets@,
                shift,
                start,
            ),
{
    let mut kept: HashSet<usize> = HashSet::new();
    let walk = candidates.iter();
    assert forall|s: usize| candidates@.contains(s) implies exists|j: int|
        0 <= j < walk.remaining().len() && *#[trigger] walk.remaining()[j] == s by {
        let order = walk.remaining().unref();
        assert(order.to_set().contains(s));
        let j = choose|j: int| 0 <= j < order.len() && order[j] == s;
        assert(*walk.remaining()[j] == s);
    }
    assert forall|j: int| 0 <= j < walk.remaining().len() implies candidates@.contains(
        *#[trigger] walk.remaining()[j],
    ) by {
        let order = walk.remaining().unref();
        assert(order[j] == *walk.remaining()[j]);
        assert(order.to_set().contains(order[j]));
    }
    for start in it: walk
        invariant
            forall|s: usize|
                candidates@.contains(s) ==> exists|j: int|
                    0 <= j < it.seq().len() && *#[trigger] it.seq()[j] == s,
            forall|j: int|
                0 <= j < it.seq().len() ==> candidates@.contains(*#[trigger] it.seq()[j]),
            forall|s: usize|
                kept@.contains(s) <==> shifted_in(targets@, shift, s) && exists|j: int|
                    0 <= j < it.index() && *#[trigger] it.seq()[j] == s,
    {
        match start.checked_add(shift) {
            Some(moved) => {
                if targets.contains(&moved) {
                    kept.insert(*start);
                }
            },
            None => {},
        }
    }
    kept
}

/// Searching the token index of a document finds the literal occurrences
/// of the query in that document, all of them and nothing else.
pub proof fn lemma_search_finds_occurrences(text: Seq<char>, query: Seq<char>)
    ensures
        index_matches(token_index(text), query) == occurrences(text, query),
{
    let index = token_index(text);
    assert forall|start: int|
        index_matches(index, query).contains(start) <==> occurrences(text, query).contains(
            start,
        ) by {
        if query.len() > 0 {
            if matches_at(index, query, start) {
                let last = query.len() - 1;
                assert(index[query[0]].contains(start + 0));
                assert(index[query[last]].contains(start + last));
                let found = text.subrange(start, start + query.len());
                assert forall|k: int| 0 <= k < query.len() implies found[k] == query[k] by {
                    assert(index[query[k]].contains(start + k));
                }
                assert(found =~= query);
            }
            if occurs_at(text, query, start) {
                let found = text.subrange(start, start + query.len());
                assert forall|k: int| 0 <= k < query.len() implies index.contains_key(
                    #[trigger] query[k],
                ) && index[query[k]].contains(start + k) by {
                    assert(found[k] == text[start + k]);
                }
            }
        }
    }
    assert(index_matches(index, query) =~= occurrences(text, query));
}

/// A set with the same offsets as `set`.
fn copy_of(set: &HashSet<usize>) -> (copy: HashSet<usize>)
    ensures
        copy@ == set@,
{
    let copy = retain_shifted(set, set, 0);
    assert(copy@ =~= set@);
    copy
}

/// One more character of the query narrows the matches by one condition.
proof fn lemma_matches_at_step(index: Map<char, Set<int>>, query: Seq<char>, k: int, start: int)
    requires
        0 <= k < query.len(),
    ensures
        matches_at(index, query.take(k + 1), start) <==> matches_at(index, query.take(k), start)
            && index.contains_key(query[k]) && index[query[k]].contains(start + k),
{
    let shorter = query.take(k);
    let longer = query.take(k + 1);
    if matches_at(index, longer, start) {
        assert(longer[k] == query[k]);
        assert forall|j: int| 0 <= j < shorter.len() implies index.contains_key(
            #[trigger] shorter[j],
        ) && index[shorter[j]].contains(start + j) by {
            assert(longer[j] == shorter[j]);
        }
    }
    if matches_at(index, shorter, start) && index.contains_key(query[k])
        && index[query[k]].contains(start + k) {
        assert forall|j: int| 0 <= j < longer.len() implies index.contains_key(
            #[trigger] longer[j],
        ) && index[longer[j]].contains(start + j) by {
            if j < k {
                assert(shorter[j] == longer[j]);
            }
        }
    }
}

/// Searches the index for `search_text` and returns the offsets at which
/// it matches: those at which every character of the query is recorded at
/// its place. The search is literal and case-sensitive; an empty query
/// matches nowhere.
pub fn search_token_text(search_text: String, tokens: TokenIndex) -> (matches: HashSet<usize>)
    ensures
        positions(matches@) == index_matches(tokens@, search_text@),
        search_text@.len() == 0 ==> matches@ == Set::<usize>::empty(),
{
    let query = chars_of(search_text.as_str());
    if query.len() == 0 {
        let nothing: HashSet<usize> = HashSet::new();
        assert(positions(nothing@) =~= index_matches(tokens@, search_text@));
        return nothing;
    }
    let seed = match tokens.get(query[0]) {
        Some(seed) => seed,
        None => {
            let nothing: HashSet<usize> = HashSet::new();
            assert forall|start: int| !matches_at(tokens@, query@, start) by {
                assert(!tokens@.contains_key(query@[0]));
            }
            assert(positions(nothing@) =~= index_matches(tokens@, search_text@));
            return nothing;
        },
    };
    let mut candidates = copy_of(seed);
    let mut k: usize = 1;
    proof {
        assert forall|start: usize|
            candidates@.contains(start) <==> matches_at(
                tokens@,
                query@.take(1),
                start as int,
            ) by {
            lemma_matches_at_step(tokens@, query@, 0, start as int);
        }
    }
    while k < query.len()
        invariant
            1 <= k <= query.len(),
            query@ == search_text@,
            tokens@.contains_key(query@[0]),
            tokens@[query@[0]] == positions(seed@),
            forall|start: usize|
                candidates@.contains(start) <==> matches_at(
                    tokens@,
                    query@.take(k as int),
                    start as int,
                ),
        decreases query.len() - k,
    {
        match tokens.get(query[k]) {
            Some(targets) => {
                let kept = retain_shifted(&candidates, targets, k);
                proof {
                    assert forall|start: usize|
                        kept@.contains(start) <==> matches_at(
                            tokens@,
                            query@.take(k + 1),
                            start as int,
                        ) by {
                        lemma_matches_at_step(tokens@, query@, k as int, start as int);
                    }
                }
                candidates = kept;
            },
            None => {
                let nothing: HashSet<usize> = HashSet::new();
                assert forall|start: int| !matches_at(tokens@, query@, start) by {
                    assert(!tokens@.contains_key(query@[k as int]));
                }
                assert(positions(nothing@) =~= index_matches(tokens@, search_text@));
                return nothing;
            },
        }
        k += 1;
    }
    proof {
        assert(query@.take(k as int) =~= query@);
        assert forall|start: int|
            positions(candidates@).contains(start) <==> index_matches(
                tokens@,
                search_text@,
            ).contains(start) by {
            if matches_at(tokens@, query@, start) {
                assert(tokens@[query@[0]].contains(start + 0));
            }
        }
        assert(positions(candidates@) =~= index_matches(tokens@, search_text@));
    }
    candidates
}

} // verus!
