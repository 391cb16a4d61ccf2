//! A type with a type parameter, and methods for one choice of it.

use vstd::prelude::*;

verus! {

/// A point whose two coordinates share a type.
pub struct Point<T> {
    pub x: T,
    pub y: T,
}

impl<T> Point<T> {
    /// The first coordinate, by reference: `T` need not be copyable.
    pub fn get_x(&self) -> (x: &T)
        ensures
            *x == self.x,
    {
        &(self.x)
    }
}

impl Point<i32> {
    /// The name of the kind of coordinate: "Integer".
    pub fn has_type(&self) -> (name: String)
        ensures
            name@ == "Integer"@,
    {
        "Integer".to_owned()
    }
}

/// What [`run`] works out.
pub struct Walkthrough {
    /// The first coordinate of the point (3, 4).
    pub x: i32,
    /// The kind of its coordinates.
    pub kind: String,
}

/// What [`run`] returns.
pub open spec fn worked(seen: Walkthrough) -> bool {
    seen.x == 3 && seen.kind@ == "Integer"@
}

/// Works the example on the point (3, 4).
pub fn run() -> (seen: Walkthrough)
    ensures
        worked(seen),
{
    let integer_pt = Point { x: 3, y: 4 };
    Walkthrough { x: *integer_pt.get_x(), kind: integer_pt.has_type() }
}

} // verus!
