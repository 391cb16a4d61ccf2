//! Vectors: growing, reading, changing in place and joining.

use vstd::prelude::*;

verus! {

/// What [`run`] works out.
pub struct Walkthrough {
    /// The third item of the vector 5, 4, 3.
    pub third: i32,
    /// What `pop` gives right after 8 was pushed.
    pub popped: Option<i32>,
    /// The vector 5, 4, 3 with every item multiplied by ten.
    pub scaled: Vec<i32>,
    /// The vector 1, 2, 3 extended twice by 4, 5, 6.
    pub extended: Vec<i32>,
}

/// What [`run`] returns.
pub open spec fn worked(seen: Walkthrough) -> bool {
    &&& seen.third == 3
    &&& seen.popped == Some(8i32)
    &&& seen.scaled@ == seq![50i32, 40i32, 30i32]
    &&& seen.extended@ == seq![1i32, 2i32, 3i32, 4i32, 5i32, 6i32, 4i32, 5i32, 6i32]
}

/// Works the example.
pub fn run() -> (seen: Walkthrough)
    ensures
        worked(seen),
{
    let mut v: Vec<i32> = Vec::new();
    v.push(5);
    v.push(4);
    v.push(3);
    let third = if 2 < v.len() {
        v[2]
    } else {
        -1
    };
    v.push(8);
    let popped = v.pop();

    let mut i: usize = 0;
    while i < v.len()
        invariant
            i <= v@.len(),
            v@.len() == 3,
            forall|k: int| 0 <= k < i ==> v@[k] == 10 * seq![5i32, 4i32, 3i32][k],
            forall|k: int| i <= k < 3 ==> v@[k] == seq![5i32, 4i32, 3i32][k],
        decreases v@.len() - i,
    {
        let temp = v[i];
        v[i] = temp * 10;
        i += 1;
    }
    assert(v@ == seq![50i32, 40i32, 30i32]);

    let mut v1: Vec<i32> = vec![1, 2, 3];
    let v2: Vec<i32> = vec![4, 5, 6];
    v1.extend_from_slice(v2.as_slice());
    v1.extend_from_slice(v2.as_slice());
    assert(v1@ == seq![1i32, 2i32, 3i32, 4i32, 5i32, 6i32, 4i32, 5i32, 6i32]);

    Walkthrough { third, popped, scaled: v, extended: v1 }
}

} // verus!
