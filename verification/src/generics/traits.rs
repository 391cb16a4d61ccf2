//! A trait with a required and a provided method, types that implement it,
//! and functions bounded by traits.

use std::fmt::Display;
use vstd::prelude::*;
use vstd::std_specs::cmp::PartialOrdIs;
use vstd::std_specs::cmp::PartialOrdSpec;
use vstd::string::StringExecFns;

verus! {

/// The text that the provided `summarize2` returns.
pub open spec fn default_summary() -> Seq<char> {
    "Default summary"@
}

/// The character for a single decimal digit.
pub open spec fn digit(d: nat) -> char
    recommends
        d < 10,
{
    if d == 0 {
        '0'
    } else if d == 1 {
        '1'
    } else if d == 2 {
        '2'
    } else if d == 3 {
        '3'
    } else if d == 4 {
        '4'
    } else if d == 5 {
        '5'
    } else if d == 6 {
        '6'
    } else if d == 7 {
        '7'
    } else if d == 8 {
        '8'
    } else {
        '9'
    }
}

/// A number written in decimal, without sign or leading zeros.
pub open spec fn decimal(n: nat) -> Seq<char>
    decreases n,
{
    if n < 10 {
        seq![digit(n)]
    } else {
        decimal(n / 10).push(digit(n % 10))
    }
}

/// Something that can say what it is, at length and in brief.
///
/// The trait promises nothing of the texts; each type that implements it
/// says what its own are.
pub trait Summary {
    /// Returns the summary at length.
    fn summarize1(&self) -> String;

    /// Returns the summary in brief. As provided it returns
    /// [`default_summary`]; a type that has a brief summary of its own
    /// replaces it.
    fn summarize2(&self) -> (text: String)
        default_ensures
            text@ == default_summary(),
    {
        "Default summary".to_owned()
    }
}

/// A rectangle, summarized by its height and its width.
pub struct Rectangle {
    pub height: u32,
    pub width: u32,
}

/// A square, summarized by its side.
pub struct Square {
    pub side: u32,
}

/// Writes `n` in decimal.
pub fn to_decimal(n: u32) -> (text: String)
    ensures
        text@ == decimal(n as nat),
    decreases n,
{
    let last = n % 10;
    let last_digit = if last == 0 {
        "0"
    } else if last == 1 {
        "1"
    } else if last == 2 {
        "2"
    } else if last == 3 {
        "3"
    } else if last == 4 {
        "4"
    } else if last == 5 {
        "5"
    } else if last == 6 {
        "6"
    } else if last == 7 {
        "7"
    } else if last == 8 {
        "8"
    } else {
        "9"
    };
    proof {
        reveal_strlit("0");
        reveal_strlit("1");
        reveal_strlit("2");
        reveal_strlit("3");
        reveal_strlit("4");
        reveal_strlit("5");
        reveal_strlit("6");
        reveal_strlit("7");
        reveal_strlit("8");
        reveal_strlit("9");
        assert(last_digit@ == seq![digit(last as nat)]);
    }
    if n < 10 {
        last_digit.to_owned()
    } else {
        let mut text = to_decimal(n / 10);
        text.append(last_digit);
        assert(text@ == decimal(n as nat / 10).push(digit(n as nat % 10)));
        text
    }
}

impl Rectangle {
    /// The summary at length: the height and the width, named.
    pub open spec fn summary(&self) -> Seq<char> {
        "Rectangle with height: "@ + decimal(self.height as nat) + " and width: "@ + decimal(
            self.width as nat,
        )
    }

    /// The summary in brief.
    pub open spec fn brief(&self) -> Seq<char> {
        "Rectangle is "@ + decimal(self.height as nat) + " tall and "@ + decimal(self.width as nat)
            + " wide"@
    }
}

impl Summary for Rectangle {
    fn summarize1(&self) -> (text: String)
        ensures
            text@ == self.summary(),
    {
        let mut text = "Rectangle with height: ".to_owned();
        text.append(to_decimal(self.height).as_str());
        text.append(" and width: ");
        text.append(to_decimal(self.width).as_str());
        text
    }

    fn summarize2(&self) -> (text: String)
        ensures
            text@ == self.brief(),
    {
        let mut text = "Rectangle is ".to_owned();
        text.append(to_decimal(self.height).as_str());
        text.append(" tall and ");
        text.append(to_decimal(self.width).as_str());
        text.append(" wide");
        text
    }
}

impl Square {
    /// The summary at length: the side, named.
    pub open spec fn summary(&self) -> Seq<char> {
        "Square with side: "@ + decimal(self.side as nat)
    }
}

impl Summary for Square {
    fn summarize1(&self) -> (text: String)
        ensures
            text@ == self.summary(),
    {
        let mut text = "Square with side: ".to_owned();
        text.append(to_decimal(self.side).as_str());
        text
    }
}

/// Takes two things that can be summarized, the second of which can also be
/// displayed, and does nothing with them. The three `notify` functions state
/// the same bounds in three ways.
pub fn notify1(item1: impl Summary, item2: impl Summary + Display) {
}

/// The bounds of [`notify1`], stated on type parameters.
pub fn notify2<T: Summary, U: Summary + Display>(item1: T, item2: U) {
}

/// The bounds of [`notify1`], stated in a `where` clause.
pub fn notify3<T, U>(item1: T, item2: U) where T: Summary, U: Summary + Display {
}

/// Hands `item` back as something that can be summarized and nothing more.
pub fn returns_summarizable<T: Summary>(item: T) -> (same: impl Summary) {
    item
}

/// Comparing two values of `T` gives what the type's own specification of
/// its order says.
pub open spec fn compares_as_specified<T: PartialOrd>() -> bool {
    T::obeys_partial_cmp_spec()
}

/// The item that a pass over `list` ends up holding when it starts with the
/// first item and replaces what it holds by every later item that compares
/// greater.
pub open spec fn running_largest<T: PartialOrd>(list: Seq<T>) -> T
    recommends
        list.len() > 0,
    decreases list.len(),
{
    if list.len() <= 1 {
        list[0]
    } else {
        let held = running_largest(list.drop_last());
        if list.last().is_gt(&held) {
            list.last()
        } else {
            held
        }
    }
}

/// Returns the largest item of a list that is not empty.
///
/// The result is always an item of the list. Where comparing `T` follows
/// the type's own specification, it is the item [`running_largest`] names.
pub fn largest<T: PartialOrd + Copy>(list: &[T]) -> (found: T)
    requires
        list@.len() > 0,
    ensures
        list@.contains(found),
        compares_as_specified::<T>() ==> found == running_largest(list@),
{
    let mut largest = list[0];
    let mut i: usize = 1;
    assert(list@.take(1).len() == 1);
    while i < list.len()
        invariant
            1 <= i <= list@.len(),
            list@.contains(largest),
            compares_as_specified::<T>() ==> largest == running_largest(list@.take(i as int)),
        decreases list@.len() - i,
    {
        let item = list[i];
        proof {
            let now = list@.take(i + 1);
            assert(now.drop_last() == list@.take(i as int));
            assert(now.last() == item);
        }
        if item > largest {
            largest = item;
        }
        i += 1;
    }
    assert(list@.take(i as int) == list@);
    largest
}

/// A value of any type, with methods that depend on what the type can do.
pub struct MyType<T> {
    pub x: T,
}

impl<T: Display> MyType<T> {
    /// Always true; it exists only for a `T` that can be displayed.
    pub fn can_display(&self) -> (yes: bool)
        ensures
            yes,
    {
        true
    }
}

impl<T> MyType<T> where T: Copy {
    /// Always true; it exists only for a `T` that can be copied.
    pub fn can_copy(&self) -> (yes: bool)
        ensures
            yes,
    {
        true
    }
}

/// What [`run`] works out.
pub struct Walkthrough {
    /// Both summaries of a rectangle 30 high and 50 wide.
    pub rectangle: (String, String),
    /// Both summaries of a square of side 40.
    pub square: (String, String),
    /// The largest of 1, 2, 43, 4 and 25.
    pub largest_number: i32,
    /// The largest byte of the text "Apple".
    pub largest_byte: u8,
}

/// What [`run`] returns.
pub open spec fn worked(seen: Walkthrough) -> bool {
    &&& seen.rectangle.0@ == "Rectangle with height: 30 and width: 50"@
    &&& seen.rectangle.1@ == "Rectangle is 30 tall and 50 wide"@
    &&& seen.square.0@ == "Square with side: 40"@
    &&& seen.square.1@ == "Default summary"@
    &&& seen.largest_number == 43
    &&& seen.largest_byte == 0x70
}

/// Works the example.
pub fn run() -> (seen: Walkthrough)
    ensures
        worked(seen),
{
    let rect = Rectangle { height: 30, width: 50 };
    let sq = Square { side: 40 };
    let rectangle = (rect.summarize1(), rect.summarize2());
    let square = (sq.summarize1(), sq.summarize2());
    proof {
        reveal_with_fuel(decimal, 2);
        reveal_strlit("Rectangle with height: ");
        reveal_strlit(" and width: ");
        reveal_strlit("Rectangle with height: 30 and width: 50");
        reveal_strlit("Rectangle is ");
        reveal_strlit(" tall and ");
        reveal_strlit(" wide");
        reveal_strlit("Rectangle is 30 tall and 50 wide");
        reveal_strlit("Square with side: ");
        reveal_strlit("Square with side: 40");
        assert(decimal(30) == seq!['3', '0']);
        assert(decimal(50) == seq!['5', '0']);
        assert(decimal(40) == seq!['4', '0']);
        assert(rectangle.0@ == "Rectangle with height: 30 and width: 50"@);
        assert(rectangle.1@ == "Rectangle is 30 tall and 50 wide"@);
        assert(square.0@ == "Square with side: 40"@);
    }

    let number_list: Vec<i32> = vec![1, 2, 43, 4, 25];
    let largest_number = largest(number_list.as_slice());
    proof {
        let all = number_list@;
        assert(all.drop_last() == seq![1i32, 2i32, 43i32, 4i32]);
        assert(all.drop_last().drop_last() == seq![1i32, 2i32, 43i32]);
        assert(all.drop_last().drop_last().drop_last() == seq![1i32, 2i32]);
        assert(all.drop_last().drop_last().drop_last().drop_last() == seq![1i32]);
        reveal_with_fuel(running_largest, 6);
    }

    let char_list = "Apple";
    let bytes = char_list.as_bytes();
    proof {
        reveal_strlit("Apple");
        vstd::utf8::is_ascii_chars_encode_utf8("Apple"@);
        let all = bytes@;
        assert(all == seq![0x41u8, 0x70u8, 0x70u8, 0x6cu8, 0x65u8]);
        assert(all.drop_last() == seq![0x41u8, 0x70u8, 0x70u8, 0x6cu8]);
        assert(all.drop_last().drop_last() == seq![0x41u8, 0x70u8, 0x70u8]);
        assert(all.drop_last().drop_last().drop_last() == seq![0x41u8, 0x70u8]);
        assert(all.drop_last().drop_last().drop_last().drop_last() == seq![0x41u8]);
        reveal_with_fuel(running_largest, 6);
    }
    let largest_byte = largest(bytes);

    let str_val = MyType { x: "".to_owned() };
    let int_val = MyType { x: 0i32 };
    str_val.can_display();
    int_val.can_display();
    int_val.can_copy();

    Walkthrough { rectangle, square, largest_number, largest_byte }
}

} // verus!
