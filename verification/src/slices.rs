//! String slices: views into text that someone else owns.

use vstd::prelude::*;
use vstd::std_specs::iter::IteratorSpec;

verus! {

/// `word` is the first word of `text`: all of it up to its first space, or
/// the whole of it where it has no space.
pub open spec fn is_first_word(text: Seq<char>, word: Seq<char>) -> bool {
    &&& word.len() <= text.len()
    &&& word == text.take(word.len() as int)
    &&& forall|i: int| 0 <= i < word.len() ==> text[i] != ' '
    &&& word.len() < text.len() ==> text[word.len() as int] == ' '
}

/// A text has one first word only.
pub proof fn lemma_first_word_is_unique(text: Seq<char>, one: Seq<char>, other: Seq<char>)
    requires
        is_first_word(text, one),
        is_first_word(text, other),
    ensures
        one == other,
{
    if one.len() < other.len() {
        assert(text[one.len() as int] != ' ');
    } else if other.len() < one.len() {
        assert(text[other.len() as int] != ' ');
    }
}

/// Returns the first word of `s`, as a slice of `s`.
pub fn get_first_word(s: &str) -> (word: &str)
    ensures
        is_first_word(s@, word@),
{
    let length = s.unicode_len();
    let mut chars = s.chars();
    let mut i: usize = 0;
    while i < length
        invariant
            length == s@.len(),
            i <= length,
            chars.remaining() == s@.skip(i as int),
            forall|j: int| 0 <= j < i ==> s@[j] != ' ',
        decreases length - i,
    {
        let item = chars.next();
        if item == Some(' ') {
            return s.substring_char(0, i);
        }
        i += 1;
    }
    assert(s@.take(length as int) == s@);
    s
}

/// Works the module's example on the text "hello world" and on the slice of
/// its third to eighth characters, "llo wo": the first word of each.
pub fn run() -> (words: (&'static str, &'static str))
    ensures
        words.0@ == "hello"@,
        words.1@ == "llo"@,
{
    let s1: &'static str = "hello world";
    proof {
        reveal_strlit("hello world");
        reveal_strlit("hello");
        reveal_strlit("llo");
    }
    let s2: &'static str = s1.substring_char(2, 8);
    let first = get_first_word(s1);
    let second = get_first_word(s2);
    proof {
        assert(s1@[5] == ' ');
        assert(s2@[3] == ' ');
        lemma_first_word_is_unique(s1@, first@, s1@.take(5));
        lemma_first_word_is_unique(s2@, second@, s2@.take(3));
        assert(s1@.take(5) == "hello"@);
        assert(s2@.take(3) == "llo"@);
    }
    (first, second)
}

} // verus!
