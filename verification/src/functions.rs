//! Functions, statements and expressions.

use vstd::prelude::*;

verus! {

/// The sum of `x` and `y` where `y` is even, their difference where it is
/// odd.
pub open spec fn sum_or_difference(x: int, y: int) -> int {
    if y % 2 == 0 {
        x + y
    } else {
        x - y
    }
}

/// Adds an even `y` to `x` and takes an odd `y` away from it.
pub fn do_something(x: i32, y: i32) -> (result: i32)
    requires
        i32::MIN <= sum_or_difference(x as int, y as int) <= i32::MAX,
    ensures
        result == sum_or_difference(x as int, y as int),
{
    if y % 2 == 0 {
        x + y
    } else {
        x - y
    }
}

/// Works the module's example: the pair `do_something(4, 9)` and
/// `do_something(4, 8)`.
pub fn run() -> (seen: (i32, i32))
    ensures
        seen == (-5i32, 12i32),
{
    (do_something(4, 9), do_something(4, 8))
}

} // verus!
