//! Case-blind search for a word in a card's type line.

use vstd::prelude::*;
use vstd::string::*;

verus! {

/// The lower-case form of an ASCII capital; any other character is itself.
pub open spec fn lowered(c: char) -> char {
    if 'A' <= c && c <= 'Z' {
        ((c as u8) + 32) as char
    } else {
        c
    }
}

/// `word` stands in `text` at position `at`, capitals in `text` read as
/// their lower-case letters.
pub open spec fn occurs_at(text: Seq<char>, word: Seq<char>, at: int) -> bool {
    &&& 0 <= at
    &&& at + word.len() <= text.len()
    &&& forall|j: int| 0 <= j < word.len() ==> lowered(#[trigger] text[at + j]) == word[j]
}

/// `word` stands somewhere in `text`, capitals read as lower-case letters.
pub open spec fn mentions(text: Seq<char>, word: Seq<char>) -> bool {
    exists|at: int| occurs_at(text, word, at)
}

/// Lowers one character.
pub fn lower(c: char) -> (r: char)
    ensures
        r == lowered(c),
{
    if 'A' <= c && c <= 'Z' {
        ((c as u8) + 32) as char
    } else {
        c
    }
}

/// The characters of a string, one by one.
pub fn characters(text: &str) -> (chars: Vec<char>)
    ensures
        chars@ == text@,
{
    let n: usize = text.unicode_len();
    let mut chars: Vec<char> = Vec::new();
    let mut i: usize = 0;
    while i < n
        invariant
            n == text@.len(),
            i <= n,
            chars@ == text@.take(i as int),
        decreases n - i,
    {
        chars.push(text.get_char(i));
        assert(text@.take(i + 1) =~= text@.take(i as int).push(text@[i as int]));
        i = i + 1;
    }
    assert(text@.take(n as int) =~= text@);
    chars
}

/// Whether `word` stands in `text` at `at`.
fn matches_at(text: &Vec<char>, word: &Vec<char>, at: usize) -> (r: bool)
    requires
        at + word@.len() <= text@.len(),
    ensures
        r == occurs_at(text@, word@, at as int),
{
    let size: usize = text.len();
    let mut j: usize = 0;
    while j < word.len()
        invariant
            j <= word@.len(),
            at + word@.len() <= text@.len(),
            size == text@.len(),
            forall|k: int| 0 <= k < j ==> lowered(#[trigger] text@[at + k]) == word@[k],
        decreases word@.len() - j,
    {
        if lower(text[at + j]) != word[j] {
            return false;
        }
        j = j + 1;
    }
    true
}

/// Whether `word` stands somewhere in `text`, whatever the case of the
/// letters of `text`. `word` is compared as it is written.
pub fn contains_word(text: &str, word: &str) -> (r: bool)
    ensures
        r == mentions(text@, word@),
{
    let text_chars: Vec<char> = characters(text);
    let word_chars: Vec<char> = characters(word);
    if word_chars.len() > text_chars.len() {
        return false;
    }
    if word_chars.len() == 0 {
        assert(occurs_at(text@, word@, 0));
        return true;
    }
    let last: usize = text_chars.len() - word_chars.len();
    let mut at: usize = 0;
    while at <= last
        invariant
            text_chars@ == text@,
            word_chars@ == word@,
            last + word@.len() == text@.len(),
            last < usize::MAX,
            at <= last + 1,
            forall|k: int| 0 <= k < at ==> !occurs_at(text@, word@, k),
        decreases last + 1 - at,
    {
        if matches_at(&text_chars, &word_chars, at) {
            return true;
        }
        at = at + 1;
    }
    false
}

} // verus!
