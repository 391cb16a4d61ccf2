use rust_primer::generics::generics::Point;
use rust_primer::generics::lifetimes::{longer_string, same_as, MyContainer};
use rust_primer::generics::traits::{
    largest, notify1, notify2, notify3, returns_summarizable, to_decimal, MyType, Rectangle,
    Square, Summary,
};
use std::fmt;

struct Headline(String);

impl fmt::Display for Headline {
    fn fmt(&self, f: &mut fmt::Formatter<'_>) -> fmt::Result {
        f.write_str(&self.0)
    }
}

impl Summary for Headline {
    fn summarize1(&self) -> String {
        format!("Headline: {}", self.0)
    }
}

#[test]
fn point_gives_its_first_coordinate() {
    let integer_pt = Point { x: 3, y: 4 };
    assert_eq!(*integer_pt.get_x(), 3);
    assert_eq!(integer_pt.has_type(), "Integer");
    let named = Point { x: String::from("left"), y: String::from("right") };
    assert_eq!(named.get_x(), "left");
}

#[test]
fn rectangle_summaries() {
    let rect = Rectangle { height: 30, width: 50 };
    assert_eq!(rect.summarize1(), "Rectangle with height: 30 and width: 50");
    assert_eq!(rect.summarize2(), "Rectangle is 30 tall and 50 wide");
    let edge = Rectangle { height: 0, width: u32::MAX };
    assert_eq!(edge.summarize1(), "Rectangle with height: 0 and width: 4294967295");
}

#[test]
fn square_keeps_the_provided_brief_summary() {
    let sq = Square { side: 40 };
    assert_eq!(sq.summarize1(), "Square with side: 40");
    assert_eq!(sq.summarize2(), "Default summary");
}

#[test]
fn a_type_from_outside_can_be_summarized() {
    let news = Headline(String::from("rain"));
    assert_eq!(news.summarize1(), "Headline: rain");
    assert_eq!(news.summarize2(), "Default summary");
    notify1(Square { side: 1 }, Headline(String::from("a")));
    notify2(Square { side: 1 }, Headline(String::from("b")));
    notify3(Square { side: 1 }, Headline(String::from("c")));
    let same = returns_summarizable(news);
    assert_eq!(same.summarize1(), "Headline: rain");
}

#[test]
fn decimal_writes_what_the_standard_formatter_writes() {
    for n in [0u32, 1, 9, 10, 11, 99, 100, 101, 12345, 1000000, 4294967294, u32::MAX] {
        assert_eq!(to_decimal(n), n.to_string());
    }
    for n in 0..2000u32 {
        assert_eq!(to_decimal(n), n.to_string());
    }
}

#[test]
fn largest_of_numbers_and_of_bytes() {
    assert_eq!(largest(&[1, 2, 43, 4, 25]), 43);
    assert_eq!(largest("Apple".as_bytes()) as char, 'p');
    assert_eq!(largest(&[7]), 7);
    assert_eq!(largest(&[-3, -1, -2]), -1);
    assert_eq!(largest(&[5, 5, 5]), 5);
    assert_eq!(largest(&['a', 'z', 'm']), 'z');
}

#[test]
fn largest_of_floats_keeps_what_nothing_beats() {
    assert_eq!(largest(&[1.5f64, -2.0, 9.25, 3.0]), 9.25);
    assert_eq!(largest(&[2.0f64, f64::NAN, 1.0]), 2.0);
}

#[test]
fn conditional_methods() {
    let str_val = MyType { x: String::from("") };
    let int_val = MyType { x: 0 };
    assert!(str_val.can_display());
    assert!(int_val.can_display());
    assert!(int_val.can_copy());
}

#[test]
fn longer_string_prefers_the_second_on_a_tie() {
    assert_eq!(longer_string("Hello", "Bro", "blablabla"), "Hello");
    assert_eq!(longer_string("Bro", "Hello", "blablabla"), "Hello");
    let (x, y) = ("abc", "xyz");
    assert_eq!(longer_string(x, y, "").as_ptr(), y.as_ptr());
    assert_eq!(longer_string("", "", "x"), "");
}

#[test]
fn longer_string_measures_bytes() {
    assert_eq!(longer_string("\u{e9}\u{e9}", "abc", ""), "\u{e9}\u{e9}");
}

#[test]
fn container_adds_to_the_vector_it_borrows() {
    let mut v = vec![1, 2, 3];
    {
        let mut cont = MyContainer { value: &mut v };
        assert_eq!(cont.add_element_and_get(4), &vec![1, 2, 3, 4]);
        assert_eq!(cont.add_element_and_get(5).len(), 5);
    }
    assert_eq!(v, vec![1, 2, 3, 4, 5]);
}

#[test]
fn same_as_hands_back_its_argument() {
    let text = "Wow";
    assert_eq!(same_as(text), "Wow");
    assert_eq!(same_as(text).as_ptr(), text.as_ptr());
}

#[test]
fn generics_walkthrough() {
    let seen = rust_primer::generics::run();
    assert_eq!(seen.generics.x, 3);
    assert_eq!(seen.generics.kind, "Integer");
    assert_eq!(seen.traits.rectangle.0, "Rectangle with height: 30 and width: 50");
    assert_eq!(seen.traits.rectangle.1, "Rectangle is 30 tall and 50 wide");
    assert_eq!(seen.traits.square.0, "Square with side: 40");
    assert_eq!(seen.traits.square.1, "Default summary");
    assert_eq!(seen.traits.largest_number, 43);
    assert_eq!(seen.traits.largest_byte as char, 'p');
    assert_eq!(seen.lifetimes.first, "Hello");
    assert_eq!(seen.lifetimes.second, "Hello");
    assert_eq!(seen.lifetimes.same, "Wow");
    assert_eq!(seen.lifetimes.extended, vec![1, 2, 3, 4]);
}
