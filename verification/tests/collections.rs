use rust_primer::collections::hashmaps::count_words;

#[test]
fn vectors_walkthrough() {
    let seen = rust_primer::collections::vectors::run();
    assert_eq!(seen.third, 3);
    assert_eq!(seen.popped, Some(8));
    assert_eq!(seen.scaled, vec![50, 40, 30]);
    assert_eq!(seen.extended, vec![1, 2, 3, 4, 5, 6, 4, 5, 6]);
}

#[test]
fn strings_walkthrough() {
    let seen = rust_primer::collections::strings::run();
    assert_eq!(seen.grown, "FooBar");
    assert_eq!(seen.whole, "FooBar");
    assert_eq!(seen.joined, "HelloWorld");
    assert_eq!(seen.hyphenated, "tic-tac-toe");
}

#[test]
fn hashmaps_walkthrough() {
    let seen = rust_primer::collections::hashmaps::run();
    assert_eq!(seen.replaced, (None, Some(20)));
    assert_eq!(seen.removed, (Some(80), None));
    assert_eq!(seen.paired, (Some(2), Some(3)));
    assert_eq!(seen.counts, (Some(1), Some(2), Some(1)));
}

#[test]
fn collections_walkthrough_is_the_one_on_hash_maps() {
    let seen = rust_primer::collections::run();
    assert_eq!(seen.replaced, (None, Some(20)));
    assert_eq!(seen.counts, (Some(1), Some(2), Some(1)));
}

#[test]
fn count_words_counts_each_word() {
    let counts = count_words("hello world beautiful world");
    assert_eq!(counts.len(), 3);
    assert_eq!(counts.get("hello"), Some(&1));
    assert_eq!(counts.get("world"), Some(&2));
    assert_eq!(counts.get("beautiful"), Some(&1));
    assert_eq!(counts.get("absent"), None);
}

#[test]
fn count_words_of_nothing_is_empty() {
    assert!(count_words("").is_empty());
    assert!(count_words(" \t\n ").is_empty());
    let counts = count_words("a a a  a\ta\na");
    assert_eq!(counts.len(), 1);
    assert_eq!(counts.get("a"), Some(&6));
}
