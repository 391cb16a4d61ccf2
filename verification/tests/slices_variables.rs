use rust_primer::slices::get_first_word;

#[test]
fn first_word_ends_at_the_first_space() {
    assert_eq!(get_first_word("hello world"), "hello");
    assert_eq!(get_first_word("llo wo"), "llo");
    assert_eq!(get_first_word("one two three"), "one");
}

#[test]
fn first_word_without_a_space_is_the_whole_text() {
    assert_eq!(get_first_word("hello"), "hello");
    assert_eq!(get_first_word(""), "");
}

#[test]
fn first_word_of_text_that_starts_with_a_space_is_empty() {
    assert_eq!(get_first_word(" hello"), "");
    assert_eq!(get_first_word("  "), "");
}

#[test]
fn first_word_stops_at_spaces_only() {
    assert_eq!(get_first_word("tab\there now"), "tab\there");
    assert_eq!(get_first_word("gr\u{fc}\u{df}e dich"), "gr\u{fc}\u{df}e");
    assert_eq!(get_first_word("\u{65e5}\u{672c} \u{8a9e}"), "\u{65e5}\u{672c}");
}

#[test]
fn first_word_is_a_slice_of_its_argument() {
    let text = String::from("hello world");
    let word = get_first_word(&text);
    assert_eq!(word.as_ptr(), text.as_ptr());
    assert_eq!(word.len(), 5);
}

#[test]
fn slices_walkthrough() {
    assert_eq!(rust_primer::slices::run(), ("hello", "llo"));
}

#[test]
fn variables_walkthrough() {
    let seen = rust_primer::variables::run();
    assert_eq!(seen.quotient, 7);
    assert_eq!(seen.picked, (500, 1));
    assert_eq!(seen.array, [5, 3, 3, 3]);
}
