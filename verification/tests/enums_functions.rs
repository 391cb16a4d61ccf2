use rust_primer::enums::{add, IpAddr, IpAddrKind, Message};
use rust_primer::functions::do_something;

#[test]
fn message_call_by_variant() {
    assert_eq!(Message::Quit.call(), 0);
    assert_eq!(Message::Move { x: 3, y: 4 }.call(), 7);
    assert_eq!(Message::Move { x: -3, y: 1 }.call(), -2);
    assert_eq!(Message::ChangeColor(1, 2, 3).call(), 6);
    assert_eq!(Message::ChangeColor(i32::MAX, -1, 1).call(), i32::MAX);
    assert_eq!(Message::ChangeColor(i32::MIN, 1, -1).call(), i32::MIN);
    assert_eq!(Message::Move { x: i32::MAX, y: 0 }.call(), i32::MAX);
    assert_eq!(Message::Write(String::from("hello")).call(), 5);
    assert_eq!(Message::Write(String::new()).call(), 0);
    assert_eq!(Message::Write(String::from("\u{e9}t\u{e9}")).call(), 5);
    assert_eq!(Message::Random1.call(), -1);
    assert_eq!(Message::Random2(99).call(), -1);
}

#[test]
fn add_reaches_into_the_option() {
    assert_eq!(add(Some(5), 6), Some(11));
    assert_eq!(add(Some(-5), 5), Some(0));
    assert_eq!(add(None, 6), None);
}

#[test]
fn enums_walkthrough() {
    assert_eq!(rust_primer::enums::run(), (7, Some(11)));
    let _kinds = (IpAddrKind::V4, IpAddrKind::V6);
    let _home = IpAddr::V4(127, 0, 0, 1);
    let _loopback = IpAddr::V6(String::from("::1"));
}

#[test]
fn do_something_adds_even_and_subtracts_odd() {
    assert_eq!(do_something(4, 9), -5);
    assert_eq!(do_something(4, 8), 12);
    assert_eq!(do_something(4, 0), 4);
    assert_eq!(do_something(4, -3), 7);
    assert_eq!(do_something(4, -2), 2);
    assert_eq!(do_something(i32::MAX, 1), i32::MAX - 1);
}

#[test]
fn functions_walkthrough() {
    assert_eq!(rust_primer::functions::run(), (-5, 12));
}
