//! References whose lifetimes the signature has to name, and a struct that
//! holds one.

use std::fmt::Display;
use vstd::prelude::*;
use vstd::string::StringSliceAdditionalSpecFns;
use vstd::utf8::encode_utf8;

verus! {

/// The longer of two texts by length in bytes; of two equally long ones, the
/// second.
pub open spec fn longer_text(x: Seq<char>, y: Seq<char>) -> Seq<char> {
    if encode_utf8(x).len() > encode_utf8(y).len() {
        x
    } else {
        y
    }
}

/// Returns the longer of `x` and `y`, the second where they are equally
/// long. The third argument plays no part.
pub fn longer_string<'a>(x: &'a str, y: &'a str, useless_arg: &str) -> (longer: &'a str)
    ensures
        longer@ == longer_text(x@, y@),
{
    if x.as_bytes().len() > y.as_bytes().len() {
        x
    } else {
        y
    }
}

/// Holds a vector that someone else owns.
#[derive(Debug)]
pub struct MyContainer<'a, T> {
    pub value: &'a mut Vec<T>,
}

impl<'a, T> MyContainer<'a, T> where T: Display {
    /// Puts `element` at the end of the vector held and returns the vector.
    pub fn add_element_and_get(&mut self, element: T) -> (all: &Vec<T>)
        ensures
            final(self).value@ == old(self).value@.push(element),
            all@ == old(self).value@.push(element),
    {
        self.value.push(element);
        &self.value
    }
}

/// Hands its argument back.
pub fn same_as(inp: &str) -> (out: &str)
    ensures
        out@ == inp@,
{
    inp
}

/// What [`run`] works out.
pub struct Walkthrough {
    /// The longer of "Hello" and "Bro".
    pub first: String,
    /// The longer of "Bro" and "Hello".
    pub second: String,
    /// What `same_as` makes of "Wow".
    pub same: String,
    /// The vector 1, 2, 3 after 4 was added through a container.
    pub extended: Vec<i32>,
}

/// What [`run`] returns.
pub open spec fn worked(seen: Walkthrough) -> bool {
    &&& seen.first@ == "Hello"@
    &&& seen.second@ == "Hello"@
    &&& seen.same@ == "Wow"@
    &&& seen.extended@ == seq![1i32, 2i32, 3i32, 4i32]
}

/// Works the example.
pub fn run() -> (seen: Walkthrough)
    ensures
        worked(seen),
{
    let first = "Hello".to_owned();
    let result1;
    let result2;
    {
        let second = "Bro".to_owned();
        proof {
            reveal_strlit("Hello");
            reveal_strlit("Bro");
            vstd::utf8::is_ascii_chars_encode_utf8("Hello"@);
            vstd::utf8::is_ascii_chars_encode_utf8("Bro"@);
        }
        result1 = longer_string(first.as_str(), second.as_str(), "blablabla").to_owned();
        result2 = longer_string(second.as_str(), first.as_str(), "blablabla").to_owned();
    }
    let mut v: Vec<i32> = vec![1, 2, 3];
    let mut cont1 = MyContainer { value: &mut v };
    let same = same_as("Wow").to_owned();
    let extended = cont1.add_element_and_get(4).clone();
    assert(extended@ == seq![1i32, 2i32, 3i32, 4i32]);
    Walkthrough { first: result1, second: result2, same, extended }
}

} // verus!
