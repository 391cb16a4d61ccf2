//! Hash maps keyed by text: inserting, replacing, removing and counting.

use crate::text::split_whitespace;
use crate::text::texts;
use crate::text::lemma_first_word;
use crate::text::lemma_no_words;
use crate::text::words_of;
use vstd::hash_map::StringHashMap;
use vstd::prelude::*;

verus! {

/// What [`run`] works out.
pub struct Walkthrough {
    /// What two inserts under "Blue" replace, the key being absent before
    /// the first: nothing, then 20.
    pub replaced: (Option<i32>, Option<i32>),
    /// What removing "Blue" and then "Green" takes out: 80, then nothing.
    pub removed: (Option<i32>, Option<i32>),
    /// The scores of "Blues" and "Reds" in a map made from two lists.
    pub paired: (Option<i32>, Option<i32>),
    /// How often "hello", "world" and "beautiful" occur in
    /// "hello world beautiful world".
    pub counts: (Option<usize>, Option<usize>, Option<usize>),
}

/// What [`run`] returns.
pub open spec fn worked(seen: Walkthrough) -> bool {
    &&& seen.replaced == (None::<i32>, Some(20i32))
    &&& seen.removed == (Some(80i32), None::<i32>)
    &&& seen.paired == (Some(2i32), Some(3i32))
    &&& seen.counts == (Some(1usize), Some(2usize), Some(1usize))
}

/// How often `word` occurs among `words`.
pub open spec fn occurrences(words: Seq<Seq<char>>, word: Seq<char>) -> nat
    decreases words.len(),
{
    if words.len() == 0 {
        0
    } else {
        occurrences(words.drop_last(), word) + if words.last() == word {
            1nat
        } else {
            0nat
        }
    }
}

/// What `map` holds under `key`, copied out.
fn lookup<V: Copy>(map: &StringHashMap<V>, key: &str) -> (found: Option<V>)
    ensures
        found == if map@.contains_key(key@) {
            Some(map@[key@])
        } else {
            None
        },
{
    match map.get(key) {
        Some(value) => Some(*value),
        None => None,
    }
}

/// Counts how often each word of `text` occurs in it. The words are what
/// white space separates.
pub fn count_words(text: &str) -> (counts: StringHashMap<usize>)
    ensures
        forall|word: Seq<char>| #[trigger]
            counts@.contains_key(word) <==> occurrences(words_of(text@), word) > 0,
        forall|word: Seq<char>| #[trigger]
            counts@.contains_key(word) ==> counts@[word] == occurrences(words_of(text@), word),
{
    let words = split_whitespace(text);
    let mut counts: StringHashMap<usize> = StringHashMap::new();
    let mut i: usize = 0;
    while i < words.len()
        invariant
            i <= words@.len(),
            texts(words@) == words_of(text@),
            forall|word: Seq<char>| #[trigger]
                counts@.contains_key(word) <==> occurrences(texts(words@).take(i as int), word)
                    > 0,
            forall|word: Seq<char>| #[trigger]
                counts@.contains_key(word) ==> counts@[word] == occurrences(
                    texts(words@).take(i as int),
                    word,
                ),
            forall|word: Seq<char>| #[trigger]
                occurrences(texts(words@).take(i as int), word) <= i,
        decreases words@.len() - i,
    {
        let word = words[i].as_str();
        let ghost seen = texts(words@).take(i as int);
        let ghost now = texts(words@).take(i + 1);
        proof {
            assert(now.drop_last() == seen);
            assert(now.last() == word@);
            assert(occurrences(seen, word@) <= i);
        }
        let so_far = match lookup(&counts, word) {
            Some(count) => count,
            None => 0,
        };
        counts.insert(word.to_owned(), so_far + 1);
        assert forall|other: Seq<char>| #[trigger] occurrences(now, other) <= i + 1 by {
            assert(occurrences(seen, other) <= i);
        }
        i += 1;
    }
    assert(texts(words@).take(i as int) == texts(words@));
    counts
}

/// Works the example: scores of teams that are inserted, replaced and
/// removed; a map made from a list of names and a list of scores; and the
/// words of a sentence counted.
pub fn run() -> (seen: Walkthrough)
    ensures
        worked(seen),
{
    proof {
        reveal_strlit("Blue");
        reveal_strlit("Yellow");
        reveal_strlit("Green");
        assert("Blue"@.len() == 4 && "Yellow"@.len() == 6 && "Green"@.len() == 5);
    }
    let mut scores: StringHashMap<i32> = StringHashMap::new();
    scores.insert("Blue".to_owned(), 10);
    scores.insert("Yellow".to_owned(), 50);
    if scores.contains_key("Blue") {
        scores.remove("Blue");
    }
    let first = lookup(&scores, "Blue");
    scores.insert("Blue".to_owned(), 20);
    let second = lookup(&scores, "Blue");
    scores.insert("Blue".to_owned(), 80);
    let third = lookup(&scores, "Blue");
    scores.remove("Blue");
    let fourth = lookup(&scores, "Green");
    scores.remove("Green");

    let teams: Vec<String> = vec!["Blues".to_owned(), "Reds".to_owned()];
    let points: Vec<i32> = vec![2, 3];
    let mut score_map: StringHashMap<i32> = StringHashMap::new();
    let mut i: usize = 0;
    while i < teams.len()
        invariant
            i <= 2,
            teams@.len() == 2,
            points@ == seq![2i32, 3i32],
            teams@[0]@ == "Blues"@,
            teams@[1]@ == "Reds"@,
            i >= 1 ==> score_map@.contains_key("Blues"@) && score_map@["Blues"@] == 2,
            i >= 2 ==> score_map@.contains_key("Reds"@) && score_map@["Reds"@] == 3,
        decreases 2 - i,
    {
        proof {
            reveal_strlit("Blues");
            reveal_strlit("Reds");
        }
        assert("Blues"@.len() != "Reds"@.len());
        score_map.insert(teams[i].clone(), points[i]);
        i += 1;
    }
    let paired = (lookup(&score_map, "Blues"), lookup(&score_map, "Reds"));

    let sentence = "hello world beautiful world";
    proof {
        lemma_sentence();
    }
    let counts = count_words(sentence);
    proof {
        assert(counts@.contains_key("hello"@));
        assert(counts@.contains_key("world"@));
        assert(counts@.contains_key("beautiful"@));
    }
    let tally = (
        lookup(&counts, "hello"),
        lookup(&counts, "world"),
        lookup(&counts, "beautiful"),
    );
    Walkthrough { replaced: (first, second), removed: (third, fourth), paired, counts: tally }
}

/// The words of the example's sentence, and how often each occurs.
proof fn lemma_sentence()
    ensures
        words_of("hello world beautiful world"@) == seq![
            "hello"@,
            "world"@,
            "beautiful"@,
            "world"@,
        ],
        occurrences(words_of("hello world beautiful world"@), "hello"@) == 1,
        occurrences(words_of("hello world beautiful world"@), "world"@) == 2,
        occurrences(words_of("hello world beautiful world"@), "beautiful"@) == 1,
{
    reveal_strlit("hello world beautiful world");
    reveal_strlit("hello");
    reveal_strlit("world");
    reveal_strlit("beautiful");
    let s = "hello world beautiful world"@;
    assert(s.skip(0) == s);
    lemma_first_word(s, 0, 5);
    lemma_first_word(s.skip(5), 1, 5);
    assert(s.skip(5).skip(6) == s.skip(11));
    lemma_first_word(s.skip(11), 1, 9);
    assert(s.skip(11).skip(10) == s.skip(21));
    lemma_first_word(s.skip(21), 1, 5);
    assert(s.skip(21).skip(6) == s.skip(27));
    lemma_no_words(s.skip(27));
    assert(s.subrange(0, 5) == "hello"@);
    assert(s.skip(5).subrange(1, 6) == "world"@);
    assert(s.skip(11).subrange(1, 10) == "beautiful"@);
    assert(s.skip(21).subrange(1, 6) == "world"@);
    let words = seq!["hello"@, "world"@, "beautiful"@, "world"@];
    assert(words_of(s) == words);
    assert(words.drop_last() == seq!["hello"@, "world"@, "beautiful"@]);
    assert(words.drop_last().drop_last() == seq!["hello"@, "world"@]);
    assert(words.drop_last().drop_last().drop_last() == seq!["hello"@]);
    assert(words.drop_last().drop_last().drop_last().drop_last() == Seq::<Seq<char>>::empty());
    assert("hello"@[0] != "world"@[0]);
    assert("hello"@.len() != "beautiful"@.len());
    reveal_with_fuel(occurrences, 5);
}

} // verus!
