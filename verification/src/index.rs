//! The token index: for each character of a document, the offsets at which
//! it occurs.

use crate::text::chars_of;
use std::collections::HashMap;
use std::collections::HashSet;
use vstd::prelude::*;

verus! {

broadcast use vstd::std_specs::hash::group_hash_axioms;

/// The offsets at which `ch` occurs in `text`.
pub open spec fn offsets_of(text: Seq<char>, ch: char) -> Set<int> {
    Set::new(|i: int| 0 <= i < text.len() && text[i] == ch)
}

/// The token index of `text`: every character that occurs in it, mapped to
/// the offsets at which it occurs.
pub open spec fn token_index(text: Seq<char>) -> Map<char, Set<int>> {
    Map::new(|ch: char| text.contains(ch), |ch: char| offsets_of(text, ch))
}

/// A set of machine offsets, read as a set of integers.
pub open spec fn positions(offsets: Set<usize>) -> Set<int> {
    Set::new(|i: int| 0 <= i <= usize::MAX && offsets.contains(i as usize))
}

/// A token index as the editor holds it.
///
/// Entries are keyed by the character's code point, an integer, which is
/// a key that vstd's model of `HashMap` covers.
#[derive(Debug, Clone)]
pub struct TokenIndex {
    entries: HashMap<u32, HashSet<usize>>,
}

impl View for TokenIndex {
    type V = Map<char, Set<int>>;

    closed spec fn view(&self) -> Map<char, Set<int>> {
        Map::new(
            |ch: char| self.entries@.contains_key(ch as u32),
            |ch: char| positions(self.entries@[ch as u32]@),
        )
    }
}

impl TokenIndex {
    /// The index of the empty document: no character has an entry.
    pub fn new() -> (index: Self)
        ensures
            index@ == token_index(Seq::<char>::empty()),
    {
        let index = TokenIndex { entries: HashMap::new() };
        assert(index@ =~= token_index(Seq::<char>::empty()));
        index
    }

    /// The offsets recorded for `ch`, if it has an entry.
    pub fn get(&self, ch: char) -> (offsets: Option<&HashSet<usize>>)
        ensures
            match offsets {
                Some(set) => self@.contains_key(ch) && self@[ch] == positions(set@),
                None => !self@.contains_key(ch),
            },
    {
        let key = ch as u32;
        self.entries.get(&key)
    }
}

/// Two indexes built from the same text hold the same mapping.
pub proof fn lemma_rebuild_identical(text: Seq<char>, first: TokenIndex, second: TokenIndex)
    requires
        first@ == token_index(text),
        second@ == token_index(text),
    ensures
        first@ == second@,
{
}

/// Two characters with the same code point are the same character.
proof fn lemma_code_point_injective(a: char, b: char)
    requires
        a as u32 == b as u32,
    ensures
        a == b,
{
}

/// What the entries hold once the first `done` characters of `chars` are
/// recorded.
spec fn records_prefix(entries: Map<u32, HashSet<usize>>, chars: Seq<char>, done: int) -> bool {
    &&& forall|key: u32|
        entries.contains_key(key) <==> exists|i: int|
            0 <= i < done && #[trigger] chars[i] as u32 == key
    &&& forall|key: u32, i: usize|
        entries.contains_key(key) ==> (#[trigger] entries[key]@.contains(i) <==> i < done
            && chars[i as int] as u32 == key)
}

/// Builds the token index of `text`. The index depends on the characters
/// of the text and on nothing else: every offset of the text stands in the
/// entry of the character found there, and an entry holds no other offset.
pub fn tokenize_text(text: String) -> (index: TokenIndex)
    ensures
        index@ == token_index(text@),
        forall|i: int|
            0 <= i < text@.len() ==> index@.contains_key(#[trigger] text@[i])
                && index@[text@[i]].contains(i),
        forall|ch: char, i: int|
            index@.contains_key(ch) && #[trigger] index@[ch].contains(i) ==> 0 <= i < text@.len()
                && text@[i] == ch,
{
    let chars = chars_of(text.as_str());
    let mut entries: HashMap<u32, HashSet<usize>> = HashMap::new();
    let mut pos: usize = 0;
    while pos < chars.len()
        invariant
            pos <= chars.len(),
            records_prefix(entries@, chars@, pos as int),
        decreases chars.len() - pos,
    {
        let key = chars[pos] as u32;
        let mut offsets = match entries.remove(&key) {
            Some(found) => found,
            None => HashSet::new(),
        };
        offsets.insert(pos);
        entries.insert(key, offsets);
        pos += 1;
    }
    let index = TokenIndex { entries };
    proof {
        let built = index@;
        let wanted = token_index(text@);
        assert forall|ch: char| built.contains_key(ch) <==> wanted.contains_key(ch) by {
            if built.contains_key(ch) {
                let i = choose|i: int| 0 <= i < pos && #[trigger] chars@[i] as u32 == ch as u32;
                lemma_code_point_injective(text@[i], ch);
            }
            if wanted.contains_key(ch) {
                let i = choose|i: int| 0 <= i < text@.len() && text@[i] == ch;
                assert(chars@[i] as u32 == ch as u32);
            }
        }
        assert forall|ch: char| built.contains_key(ch) implies built[ch] =~= wanted[ch] by {
            assert forall|i: int| built[ch].contains(i) <==> wanted[ch].contains(i) by {
                if 0 <= i < text@.len() {
                    assert(index.entries@[ch as u32]@.contains(i as usize) <==> chars@[i] as u32
                        == ch as u32);
                    if chars@[i] as u32 == ch as u32 {
                        lemma_code_point_injective(text@[i], ch);
                    }
                }
            }
        }
        assert(built =~= wanted);
    }
    index
}

} // verus!
