use rust_primer::iterators::{Counter, COUNTER_LIMIT};
use rust_primer::structs::{build_user, Color, Point};

#[test]
fn build_user_fills_the_rest() {
    let user = build_user(String::from("sometwo@example.com"), String::from("sometwo456"));
    assert_eq!(user.email, "sometwo@example.com");
    assert_eq!(user.username, "sometwo456");
    assert_eq!(user.sign_in_count, 1);
    assert!(user.active);
}

#[test]
fn structs_walkthrough() {
    let (user1, user2, user3) = rust_primer::structs::run();
    assert_eq!(user1.email, "anotherone@example.com");
    assert_eq!(user1.username, "someone123");
    assert_eq!(user2.email, "sometwo@example.com");
    assert_eq!(user2.username, "sometwo456");
    assert_eq!(user3.email, "somethree@example.com");
    assert_eq!(user3.username, "somethree789");
    for user in [&user1, &user2, &user3] {
        assert_eq!(user.sign_in_count, 1);
        assert!(user.active);
    }
    let black = Color(0, 0, 0);
    let origin = Point(0, 0, 0);
    assert_eq!(format!("{:?}", black), "Color(0, 0, 0)");
    assert_eq!((origin.0, origin.1, origin.2), (0, 0, 0));
}

#[test]
fn counter_counts_to_five_and_stops() {
    let mut counter = Counter::new();
    for want in 1..=COUNTER_LIMIT {
        assert_eq!(counter.next(), Some(want));
    }
    assert_eq!(counter.next(), None);
    assert_eq!(counter.next(), None);
    assert_eq!(COUNTER_LIMIT, 5);
}

#[test]
fn iterators_walkthrough() {
    let seen = rust_primer::iterators::run();
    assert_eq!(seen.total, 6);
    assert_eq!(seen.evens, vec![2, 4]);
    assert_eq!(seen.sum, 18);
}
