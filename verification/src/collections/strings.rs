//! Strings: growing and joining them.

use vstd::prelude::*;
use vstd::string::StringExecFns;

verus! {

/// What [`run`] works out.
pub struct Walkthrough {
    /// A string grown piece by piece from "F", "oo" and "Bar".
    pub grown: String,
    /// The same text made in one step.
    pub whole: String,
    /// "Hello" and "World" joined.
    pub joined: String,
    /// "tic", "tac" and "toe" with hyphens between them.
    pub hyphenated: String,
}

/// What [`run`] returns.
pub open spec fn worked(seen: Walkthrough) -> bool {
    &&& seen.grown@ == "FooBar"@
    &&& seen.whole@ == "FooBar"@
    &&& seen.joined@ == "HelloWorld"@
    &&& seen.hyphenated@ == "tic-tac-toe"@
}

/// Works the example.
pub fn run() -> (seen: Walkthrough)
    ensures
        worked(seen),
{
    let mut s1 = String::new();
    s1.append("F");
    s1.append("oo");
    s1.append("Bar");
    let s2 = "FooBar".to_owned();

    let hello = "Hello".to_owned();
    let world = "World".to_owned();
    let s3 = hello.concat(world.as_str());

    let tic = "tic".to_owned();
    let tac = "tac".to_owned();
    let toe = "toe".to_owned();
    let mut s = String::new();
    s.append(tic.as_str());
    s.append("-");
    s.append(tac.as_str());
    s.append("-");
    s.append(toe.as_str());

    proof {
        reveal_strlit("F");
        reveal_strlit("oo");
        reveal_strlit("Bar");
        reveal_strlit("FooBar");
        reveal_strlit("Hello");
        reveal_strlit("World");
        reveal_strlit("HelloWorld");
        reveal_strlit("tic");
        reveal_strlit("tac");
        reveal_strlit("toe");
        reveal_strlit("-");
        reveal_strlit("tic-tac-toe");
        assert(s1@ == "FooBar"@);
        assert(s3@ == "HelloWorld"@);
        assert(s@ == "tic-tac-toe"@);
    }
    Walkthrough { grown: s1, whole: s2, joined: s3, hyphenated: s }
}

} // verus!
