//! Variables, tuples and arrays.

use vstd::prelude::*;

verus! {

/// What [`run`] works out.
pub struct Walkthrough {
    /// 50 divided by 7, in whole numbers.
    pub quotient: i32,
    /// The first and the last part of the tuple (500, 6.4, 1); the middle
    /// one is not a whole number and stays out.
    pub picked: (i32, i32),
    /// An array of four threes whose first item was then set to 5.
    pub array: [i32; 4],
}

/// Works the module's example.
pub fn run() -> (seen: Walkthrough)
    ensures
        seen.quotient == 7,
        seen.picked == (500i32, 1i32),
        seen.array@ == seq![5i32, 3i32, 3i32, 3i32],
{
    let quotient: i32 = 50 / 7;
    let tup: (i32, i32) = (500, 1);
    let (x, _z) = tup;
    let mut a: [i32; 4] = [3, 3, 3, 3];
    a[0] = 5;
    assert(a@ == seq![5i32, 3i32, 3i32, 3i32]);
    Walkthrough { quotient, picked: (x, tup.1), array: a }
}

} // verus!
