//! Enums with and without data, and matching on them.

use vstd::prelude::*;
use vstd::string::StringSliceAdditionalSpecFns;
use vstd::utf8::encode_utf8;

verus! {

/// The two kinds of IP address.
pub enum IpAddrKind {
    V4,
    V6,
}

/// An IP address: four octets, or the text of a version 6 address.
pub enum IpAddr {
    V4(u8, u8, u8, u8),
    V6(String),
}

/// A message, each kind with its own payload.
pub enum Message {
    Quit,
    Move { x: i32, y: i32 },
    Write(String),
    ChangeColor(i32, i32, i32),
    Random1,
    Random2(i32),
}

impl Message {
    /// The number a message stands for: 0 for `Quit`, the sum of the
    /// coordinates of a `Move`, the sum of the channels of a `ChangeColor`,
    /// the length in bytes of the text of a `Write`, and -1 for the rest.
    pub open spec fn value(&self) -> int {
        match *self {
            Message::Quit => 0,
            Message::Move { x, y } => x + y,
            Message::ChangeColor(r, g, b) => r + g + b,
            Message::Write(text) => encode_utf8(text@).len() as int,
            _ => -1,
        }
    }

    /// Every sum that [`Message::call`] forms on the way to its result is a
    /// number that an `i32` holds. The channels of a `ChangeColor` are added
    /// from the left, so the sum of the first two counts as well as the sum
    /// of all three.
    pub open spec fn fits(&self) -> bool {
        &&& i32::MIN <= self.value() <= i32::MAX
        &&& match *self {
            Message::ChangeColor(r, g, _) => i32::MIN <= r + g <= i32::MAX,
            _ => true,
        }
    }

    /// Returns the number the message stands for.
    pub fn call(&self) -> (number: i32)
        requires
            self.fits(),
        ensures
            number == self.value(),
    {
        match self {
            Message::Quit => 0,
            Message::Move { x: a, y: b } => a + b,
            Message::ChangeColor(a, b, c) => a + b + c,
            Message::Write(text) => { text.as_str().len() as i32 },
            _ => -1,
        }
    }
}

/// Adds `delta` to the number inside `opt`, where there is one.
pub fn add(opt: Option<i32>, delta: i32) -> (sum: Option<i32>)
    requires
        opt matches Some(i) ==> i32::MIN <= i + delta <= i32::MAX,
    ensures
        sum == match opt {
            Some(i) => Some((i + delta) as i32),
            None => None,
        },
{
    match opt {
        Some(i) => Some(i + delta),
        None => None,
    }
}

/// Works the module's example: what a move by (3, 4) stands for, and 6 added
/// to an optional 5.
pub fn run() -> (seen: (i32, Option<i32>))
    ensures
        seen == (7i32, Some(11i32)),
{
    let msg = Message::Move { x: 3, y: 4 };
    let some_number = Some(5);
    (msg.call(), self::add(some_number, 6))
}

} // verus!
