//! The common collections: vectors, strings and hash maps.

use vstd::prelude::*;

pub mod hashmaps;
pub mod strings;
pub mod vectors;

verus! {

/// Works the example on hash maps, the one of the three that is switched
/// on. The other two are run by calling them.
pub fn run() -> (seen: hashmaps::Walkthrough)
    ensures
        hashmaps::worked(seen),
{
    hashmaps::run()
}

} // verus!
