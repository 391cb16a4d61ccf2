//! Working on text character by character: white space, trimming, splitting
//! into words and reading a decimal number.

use vstd::prelude::*;
use vstd::std_specs::iter::IteratorSpec;

verus! {

/// Whether `c` is white space: a character with the Unicode property
/// `White_Space`.
pub open spec fn is_whitespace(c: char) -> bool {
    ||| '\u{9}' <= c <= '\u{d}'
    ||| c == ' '
    ||| c == '\u{85}'
    ||| c == '\u{a0}'
    ||| c == '\u{1680}'
    ||| '\u{2000}' <= c <= '\u{200a}'
    ||| c == '\u{2028}'
    ||| c == '\u{2029}'
    ||| c == '\u{202f}'
    ||| c == '\u{205f}'
    ||| c == '\u{3000}'
}

/// Tells whether `c` is white space.
pub fn whitespace(c: char) -> (yes: bool)
    ensures
        yes == is_whitespace(c),
{
    ('\u{9}' <= c && c <= '\u{d}') || c == ' ' || c == '\u{85}' || c == '\u{a0}' || c == '\u{1680}'
        || ('\u{2000}' <= c && c <= '\u{200a}') || c == '\u{2028}' || c == '\u{2029}' || c
        == '\u{202f}' || c == '\u{205f}' || c == '\u{3000}'
}

/// The characters of `s`, in order.
pub fn chars_of(s: &str) -> (chars: Vec<char>)
    ensures
        chars@ == s@,
{
    let mut chars: Vec<char> = Vec::new();
    let mut rest = s.chars();
    loop
        invariant
            chars@ + rest.remaining() == s@,
            rest.obeys_prophetic_iter_laws(),
            rest.decrease() is Some,
        ensures
            chars@ == s@,
        decreases rest.decrease()->0,
    {
        match rest.next() {
            Some(c) => {
                chars.push(c);
            },
            None => {
                break ;
            },
        }
    }
    chars
}

/// How many characters of white space `s` starts with.
pub open spec fn leading_whitespace(s: Seq<char>) -> nat
    decreases s.len(),
{
    if s.len() > 0 && is_whitespace(s[0]) {
        1 + leading_whitespace(s.drop_first())
    } else {
        0
    }
}

/// How many characters of white space `s` ends with.
pub open spec fn trailing_whitespace(s: Seq<char>) -> nat
    decreases s.len(),
{
    if s.len() > 0 && is_whitespace(s.last()) {
        1 + trailing_whitespace(s.drop_last())
    } else {
        0
    }
}

/// `s` without the white space at its two ends.
pub open spec fn trimmed(s: Seq<char>) -> Seq<char> {
    if leading_whitespace(s) == s.len() {
        Seq::empty()
    } else {
        s.subrange(leading_whitespace(s) as int, s.len() - trailing_whitespace(s))
    }
}

/// The white space at the start of `s` ends at the first character that is
/// none.
pub proof fn lemma_leading_whitespace(s: Seq<char>, count: int)
    requires
        0 <= count <= s.len(),
        forall|i: int| 0 <= i < count ==> is_whitespace(s[i]),
        count < s.len() ==> !is_whitespace(s[count]),
    ensures
        leading_whitespace(s) == count,
    decreases count,
{
    if count > 0 {
        lemma_leading_whitespace(s.drop_first(), count - 1);
    }
}

/// The white space at the end of `s` starts behind the last character that
/// is none.
pub proof fn lemma_trailing_whitespace(s: Seq<char>, count: int)
    requires
        0 <= count <= s.len(),
        forall|i: int| s.len() - count <= i < s.len() ==> is_whitespace(s[i]),
        count < s.len() ==> !is_whitespace(s[s.len() - count - 1]),
    ensures
        trailing_whitespace(s) == count,
    decreases count,
{
    if count > 0 {
        lemma_trailing_whitespace(s.drop_last(), count - 1);
    }
}

/// Returns `s` without the white space at its two ends, as a slice of `s`.
pub fn trim(s: &str) -> (core: &str)
    ensures
        core@ == trimmed(s@),
{
    let chars = chars_of(s);
    let mut start: usize = 0;
    while start < chars.len() && whitespace(chars[start])
        invariant
            start <= chars@.len(),
            forall|i: int| 0 <= i < start ==> is_whitespace(chars@[i]),
        decreases chars@.len() - start,
    {
        start += 1;
    }
    proof {
        lemma_leading_whitespace(chars@, start as int);
    }
    if start == chars.len() {
        return s.substring_char(0, 0);
    }
    let mut end: usize = chars.len();
    while end > start && whitespace(chars[end - 1])
        invariant
            start <= end <= chars@.len(),
            start < chars@.len(),
            !is_whitespace(chars@[start as int]),
            forall|i: int| end <= i < chars@.len() ==> is_whitespace(chars@[i]),
        decreases end,
    {
        end -= 1;
    }
    proof {
        lemma_trailing_whitespace(chars@, chars@.len() - end);
    }
    s.substring_char(start, end)
}

/// What a decimal digit is worth; `None` for any other character.
pub open spec fn digit_value(c: char) -> Option<nat> {
    if '0' <= c <= '9' {
        Some((c as u32 - '0' as u32) as nat)
    } else {
        None
    }
}

/// The number that a run of decimal digits writes, the empty run taken as
/// zero; `None` where a character is no digit.
pub open spec fn digits_value(s: Seq<char>) -> Option<nat>
    decreases s.len(),
{
    if s.len() == 0 {
        Some(0)
    } else {
        match (digits_value(s.drop_last()), digit_value(s.last())) {
            (Some(high), Some(low)) => Some(10 * high + low),
            _ => None,
        }
    }
}

/// The `u32` that `s` writes in decimal: an optional plus sign and then one
/// digit at least, nothing else, for a number that a `u32` can hold. Any
/// other text gives `None`.
pub open spec fn parsed_u32(s: Seq<char>) -> Option<u32> {
    let digits = if s.len() > 0 && s[0] == '+' {
        s.drop_first()
    } else {
        s
    };
    if digits.len() == 0 {
        None
    } else {
        match digits_value(digits) {
            Some(value) if value <= u32::MAX => Some(value as u32),
            _ => None,
        }
    }
}

/// A run with a character in it that is no digit writes no number.
pub proof fn lemma_digits_value_none(s: Seq<char>, at: int)
    requires
        0 <= at < s.len(),
        digit_value(s[at]) is None,
    ensures
        digits_value(s) is None,
    decreases s.len(),
{
    if at < s.len() - 1 {
        lemma_digits_value_none(s.drop_last(), at);
    }
}

/// A run of digits writes a number no smaller than any of its prefixes
/// does.
pub proof fn lemma_digits_value_grows(s: Seq<char>, count: int)
    requires
        0 <= count <= s.len(),
        digits_value(s) is Some,
    ensures
        digits_value(s.take(count)) is Some,
        digits_value(s.take(count))->0 <= digits_value(s)->0,
    decreases s.len(),
{
    if count == s.len() {
        assert(s.take(count) == s);
    } else {
        lemma_digits_value_grows(s.drop_last(), count);
        assert(s.drop_last().take(count) == s.take(count));
    }
}

/// Reads `s` as a `u32` written in decimal.
pub fn parse_u32(s: &str) -> (number: Option<u32>)
    ensures
        number == parsed_u32(s@),
{
    let chars = chars_of(s);
    let first: usize = if chars.len() > 0 && chars[0] == '+' {
        1
    } else {
        0
    };
    let ghost digits = if first == 1 {
        s@.drop_first()
    } else {
        s@
    };
    assert(digits == chars@.skip(first as int));
    if first == chars.len() {
        return None;
    }
    let mut value: u64 = 0;
    let mut i: usize = first;
    while i < chars.len()
        invariant
            first <= i <= chars@.len(),
            first < chars@.len(),
            digits == chars@.skip(first as int),
            digits.len() > 0,
            parsed_u32(s@) == match digits_value(digits) {
                Some(value) if value <= u32::MAX => Some(value as u32),
                _ => None,
            },
            digits_value(digits.take(i - first)) == Some(value as nat),
            value <= u32::MAX,
        decreases chars@.len() - i,
    {
        let c = chars[i];
        if c < '0' || c > '9' {
            proof {
                lemma_digits_value_none(digits, i - first);
            }
            return None;
        }
        let low = (c as u32 - '0' as u32) as u64;
        let next = 10 * value + low;
        proof {
            let now = digits.take(i + 1 - first);
            assert(now.drop_last() == digits.take(i - first));
            assert(now.last() == c);
            assert(digits_value(now) == Some(next as nat));
        }
        if next > 0xffff_ffff {
            proof {
                if digits_value(digits) is Some {
                    lemma_digits_value_grows(digits, i + 1 - first);
                }
            }
            return None;
        }
        value = next;
        i += 1;
    }
    assert(digits.take(i - first) == digits);
    Some(value as u32)
}

/// How many characters that are no white space `s` starts with.
pub open spec fn word_length(s: Seq<char>) -> nat
    decreases s.len(),
{
    if s.len() > 0 && !is_whitespace(s[0]) {
        1 + word_length(s.drop_first())
    } else {
        0
    }
}

/// The counts of [`leading_whitespace`] and [`word_length`] stay within the
/// text.
pub proof fn lemma_counts_are_bounded(s: Seq<char>)
    ensures
        leading_whitespace(s) <= s.len(),
        word_length(s) <= s.len(),
    decreases s.len(),
{
    if s.len() > 0 {
        lemma_counts_are_bounded(s.drop_first());
    }
}

/// The words of `s`: its longest runs of characters that are no white
/// space, in order.
pub open spec fn words_of(s: Seq<char>) -> Seq<Seq<char>>
    decreases s.len(),
    via words_of_terminates
{
    let rest = s.skip(leading_whitespace(s) as int);
    if leading_whitespace(s) >= s.len() || word_length(rest) == 0 {
        Seq::empty()
    } else {
        seq![rest.take(word_length(rest) as int)] + words_of(rest.skip(word_length(rest) as int))
    }
}

#[via_fn]
proof fn words_of_terminates(s: Seq<char>) {
    lemma_counts_are_bounded(s);
    lemma_counts_are_bounded(s.skip(leading_whitespace(s) as int));
}

/// The texts that a list of strings holds.
pub open spec fn texts(list: Seq<String>) -> Seq<Seq<char>> {
    Seq::new(list.len(), |i: int| list[i]@)
}

/// A word at the start of `s` ends at the first white space.
pub proof fn lemma_word_length(s: Seq<char>, count: int)
    requires
        0 <= count <= s.len(),
        forall|i: int| 0 <= i < count ==> !is_whitespace(s[i]),
        count < s.len() ==> is_whitespace(s[count]),
    ensures
        word_length(s) == count,
    decreases count,
{
    if count > 0 {
        lemma_word_length(s.drop_first(), count - 1);
    }
}

/// A text that is white space throughout has no words.
pub proof fn lemma_no_words(s: Seq<char>)
    requires
        forall|i: int| 0 <= i < s.len() ==> is_whitespace(s[i]),
    ensures
        words_of(s) == Seq::<Seq<char>>::empty(),
{
    lemma_leading_whitespace(s, s.len() as int);
}

/// The first word of a text: behind `gap` characters of white space come
/// `length` characters that are none, and white space or the end follows.
/// The other words are those of what is left.
pub proof fn lemma_first_word(s: Seq<char>, gap: int, length: int)
    requires
        0 <= gap,
        1 <= length,
        gap + length <= s.len(),
        forall|i: int| 0 <= i < gap ==> is_whitespace(s[i]),
        forall|i: int| gap <= i < gap + length ==> !is_whitespace(s[i]),
        gap + length < s.len() ==> is_whitespace(s[gap + length]),
    ensures
        words_of(s) == seq![s.subrange(gap, gap + length)] + words_of(s.skip(gap + length)),
{
    lemma_leading_whitespace(s, gap);
    let rest = s.skip(gap);
    lemma_word_length(rest, length);
    assert(rest.take(length) == s.subrange(gap, gap + length));
    assert(rest.skip(length) == s.skip(gap + length));
}

/// Splits `s` into its words.
pub fn split_whitespace(s: &str) -> (words: Vec<String>)
    ensures
        texts(words@) == words_of(s@),
{
    let chars = chars_of(s);
    let mut words: Vec<String> = Vec::new();
    let mut i: usize = 0;
    assert(chars@.skip(0) == chars@);
    loop
        invariant
            chars@ == s@,
            i <= chars@.len(),
            texts(words@) + words_of(chars@.skip(i as int)) == words_of(chars@),
        ensures
            texts(words@) == words_of(chars@),
        decreases chars@.len() - i,
    {
        let ghost before = chars@.skip(i as int);
        let from = i;
        while i < chars.len() && whitespace(chars[i])
            invariant
                from <= i <= chars@.len(),
                forall|k: int| from <= k < i ==> is_whitespace(chars@[k]),
            decreases chars@.len() - i,
        {
            i += 1;
        }
        proof {
            lemma_leading_whitespace(before, i - from);
        }
        if i == chars.len() {
            break ;
        }
        let start = i;
        let ghost rest = before.skip(start - from);
        assert(rest == chars@.skip(start as int));
        while i < chars.len() && !whitespace(chars[i])
            invariant
                start <= i <= chars@.len(),
                forall|k: int| start <= k < i ==> !is_whitespace(chars@[k]),
            decreases chars@.len() - i,
        {
            i += 1;
        }
        proof {
            lemma_word_length(rest, i - start);
            assert(rest.take(i - start) == chars@.subrange(start as int, i as int));
            assert(rest.skip(i - start) == chars@.skip(i as int));
        }
        let word = s.substring_char(start, i).to_owned();
        let ghost earlier = texts(words@);
        words.push(word);
        assert(texts(words@) == earlier.push(word@));
        assert(earlier.push(word@) + words_of(chars@.skip(i as int)) == earlier + (seq![word@]
            + words_of(chars@.skip(i as int))));
    }
    words
}

} // verus!
