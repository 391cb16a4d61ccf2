use rust_primer::closures::{with_context, Cacher, Cacher2, FallibleCacher, TextCacher};
use std::cell::Cell;

#[test]
fn identity_over_integers_is_computed_once_per_key() {
    let calls = Cell::new(0u32);
    let mut cache = Cacher2::new(|x: u32| {
        calls.set(calls.get() + 1);
        x
    });
    assert_eq!(cache.get_value(&3), 3);
    assert_eq!(calls.get(), 1);
    assert_eq!(cache.get_value(&3), 3);
    assert_eq!(calls.get(), 1);
    assert_eq!(cache.get_value(&2), 2);
    assert_eq!(calls.get(), 2);
}

#[test]
fn length_over_strings_is_computed_once_per_key() {
    let calls = Cell::new(0u32);
    let mut cache = Cacher2::new(|s: String| {
        calls.set(calls.get() + 1);
        s.len()
    });
    let apple = String::from("Apple");
    let banana = String::from("Banana");
    assert_eq!(cache.get_value(&apple), 5);
    assert_eq!(calls.get(), 1);
    assert_eq!(cache.get_value(&apple), 5);
    assert_eq!(calls.get(), 1);
    assert_eq!(cache.get_value(&banana), 6);
    assert_eq!(calls.get(), 2);
}

#[test]
fn string_results_are_handed_out_again() {
    let mut cache = Cacher2::new(|s: String| s);
    let apple = String::from("Apple");
    let banana = String::from("Banana");
    assert_eq!(cache.get_value(&apple), "Apple");
    assert_eq!(cache.get_value(&apple), "Apple");
    assert_eq!(cache.get_value(&banana), "Banana");
}

#[test]
fn equal_keys_share_one_invocation() {
    let calls = Cell::new(0u32);
    let mut cache = Cacher2::new(|s: String| {
        calls.set(calls.get() + 1);
        s.len() * 10
    });
    let k1 = String::from("pear");
    let k2 = String::from("pear");
    let first = cache.get_value(&k1);
    let second = cache.get_value(&k2);
    assert_eq!(first, 40);
    assert_eq!(first, second);
    assert_eq!(calls.get(), 1);
}

#[test]
fn same_key_many_times_invokes_once() {
    let calls = Cell::new(0u32);
    let mut cache = Cacher2::new(|x: u64| {
        calls.set(calls.get() + 1);
        x * x
    });
    for _ in 0..100 {
        assert_eq!(cache.get_value(&12), 144);
    }
    assert_eq!(calls.get(), 1);
}

#[test]
fn distinct_keys_are_computed_independently() {
    let calls = Cell::new(0u32);
    let mut cache = Cacher2::new(|x: i32| {
        calls.set(calls.get() + 1);
        -x
    });
    assert_eq!(cache.get_value(&7), -7);
    assert_eq!(cache.get_value(&-4), 4);
    assert_eq!(calls.get(), 2);
    assert_eq!(cache.get_value(&7), -7);
    assert_eq!(calls.get(), 2);
}

#[test]
fn answers_equal_the_function_on_hit_and_miss() {
    let f = |x: u32| x.wrapping_mul(2654435761) % 1000;
    let mut cache = Cacher2::new(f);
    for round in 0..3 {
        for k in 0..50u32 {
            assert_eq!(cache.get_value(&k), f(k), "round {} key {}", round, k);
        }
    }
}

#[test]
fn a_stored_answer_outlives_a_changing_computation() {
    let calls = Cell::new(0u32);
    let mut cache = Cacher2::new(|x: u32| {
        calls.set(calls.get() + 1);
        x + calls.get()
    });
    assert_eq!(cache.get_value(&10), 11);
    assert_eq!(cache.get_value(&10), 11);
    assert_eq!(cache.get_value(&20), 22);
    assert_eq!(cache.get_value(&10), 11);
}

#[test]
fn failure_is_not_stored_and_is_retried() {
    let calls = Cell::new(0u32);
    let mut cache = FallibleCacher::new(|x: u32| {
        calls.set(calls.get() + 1);
        if calls.get() == 1 {
            Err(String::from("not yet"))
        } else {
            Ok(x + 100)
        }
    });
    assert_eq!(cache.get_value(&5), Err(String::from("not yet")));
    assert_eq!(calls.get(), 1);
    assert_eq!(cache.get_value(&5), Ok(105));
    assert_eq!(calls.get(), 2);
    assert_eq!(cache.get_value(&5), Ok(105));
    assert_eq!(calls.get(), 2);
}

#[test]
fn failure_on_one_key_leaves_others_alone() {
    let calls = Cell::new(0u32);
    let mut cache = FallibleCacher::new(|x: u32| {
        calls.set(calls.get() + 1);
        if x % 2 == 1 {
            Err(x)
        } else {
            Ok(x / 2)
        }
    });
    assert_eq!(cache.get_value(&8), Ok(4));
    assert_eq!(cache.get_value(&3), Err(3));
    assert_eq!(cache.get_value(&3), Err(3));
    assert_eq!(cache.get_value(&8), Ok(4));
    assert_eq!(calls.get(), 3);
}

#[test]
fn one_entry_cache_answers_a_repeated_argument_from_the_slot() {
    let calls = Cell::new(0u32);
    let mut cache = Cacher::new(|x| {
        calls.set(calls.get() + 1);
        x
    });
    assert_eq!(cache.get_value(3), 3);
    assert_eq!(calls.get(), 1);
    assert_eq!(cache.get_value(3), 3);
    assert_eq!(calls.get(), 1);
}

#[test]
fn one_entry_cache_computes_anew_for_another_argument() {
    let mut cache = Cacher::new(|x| x + 1);
    assert_eq!(cache.get_value(3), 4);
    assert_eq!(cache.get_value(9), 10);
    assert_eq!(cache.get_value(9), 10);
    assert_eq!(cache.get_value(3), 4);
}

#[test]
fn one_entry_cache_after_identity_on_3_answers_2_for_2() {
    let mut cache = Cacher::new(|x| x);
    assert_eq!(cache.get_value(3), 3);
    assert_eq!(cache.get_value(2), 2);
}

#[test]
fn one_entry_cache_invokes_once_per_change_of_argument() {
    let calls = Cell::new(0u32);
    let mut cache = Cacher::new(|x| {
        calls.set(calls.get() + 1);
        x * 2
    });
    assert_eq!(cache.get_value(0), 0);
    assert_eq!(calls.get(), 1);
    for _ in 0..10 {
        assert_eq!(cache.get_value(5), 10);
    }
    assert_eq!(calls.get(), 2);
    assert_eq!(cache.get_value(0), 0);
    assert_eq!(calls.get(), 3);
    assert_eq!(cache.get_value(u32::MAX / 2), u32::MAX - 1);
    assert_eq!(calls.get(), 4);
}

#[test]
fn text_cache_length_is_computed_once_per_text() {
    let calls = Cell::new(0u32);
    let mut cache = TextCacher::new(|s: String| {
        calls.set(calls.get() + 1);
        s.len()
    });
    let apple = String::from("Apple");
    let banana = String::from("Banana");
    assert_eq!(cache.get_value(&apple), 5);
    assert_eq!(calls.get(), 1);
    assert_eq!(cache.get_value(&apple), 5);
    assert_eq!(calls.get(), 1);
    assert_eq!(cache.get_value(&banana), 6);
    assert_eq!(calls.get(), 2);
}

#[test]
fn text_cache_takes_equal_texts_for_one_key() {
    let calls = Cell::new(0u32);
    let mut cache = TextCacher::new(|s: String| {
        calls.set(calls.get() + 1);
        s.to_uppercase()
    });
    let k1 = String::from("pear");
    let mut k2 = String::with_capacity(64);
    k2.push_str("pe");
    k2.push_str("ar");
    assert_eq!(cache.get_value(&k1), "PEAR");
    assert_eq!(cache.get_value(&k2), "PEAR");
    assert_eq!(calls.get(), 1);
    assert_eq!(cache.get_value(&String::new()), "");
    assert_eq!(cache.get_value(&String::from("Pear")), "PEAR");
    assert_eq!(calls.get(), 3);
    assert_eq!(cache.get_value(&k1), "PEAR");
    assert_eq!(calls.get(), 3);
}

#[test]
fn text_cache_answers_equal_the_function_on_hit_and_miss() {
    let f = |s: String| s.chars().rev().collect::<String>();
    let mut cache = TextCacher::new(f);
    for _ in 0..3 {
        for word in ["", "a", "ab", "\u{e9}t\u{e9}", "hello world"] {
            let key = String::from(word);
            assert_eq!(cache.get_value(&key), f(key.clone()));
        }
    }
}

#[test]
fn closures_walkthrough() {
    let seen = rust_primer::closures::run();
    assert_eq!(seen.added, (4, 5));
    assert_eq!(seen.single, (3, 3));
    assert_eq!(seen.keyed, (3, 3, 2));
    assert_eq!(
        seen.echoed,
        (String::from("Apple"), String::from("Apple"), String::from("Banana"))
    );
    assert_eq!(seen.lengths, (5, 5, 6));
    assert!(seen.is_apple);
}

#[test]
fn context_is_handed_over_once_and_used_by_every_computation() {
    let calls = Cell::new(0u32);
    let mut cache = with_context(String::from("-suffix"), |suffix: &String, word: String| {
        calls.set(calls.get() + 1);
        format!("{}{}", word, suffix)
    });
    let key = String::from("word");
    assert_eq!(cache.get_value(&key), "word-suffix");
    assert_eq!(cache.get_value(&key), "word-suffix");
    assert_eq!(cache.get_value(&String::from("other")), "other-suffix");
    assert_eq!(calls.get(), 2);
}
