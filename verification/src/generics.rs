//! Generic types, traits and lifetimes.

use vstd::prelude::*;

pub mod generics;
pub mod lifetimes;
pub mod traits;

verus! {

/// What [`run`] works out, part by part.
pub struct Walkthrough {
    pub generics: generics::Walkthrough,
    pub traits: traits::Walkthrough,
    pub lifetimes: lifetimes::Walkthrough,
}

/// Works the examples of the three parts in turn.
pub fn run() -> (seen: Walkthrough)
    ensures
        generics::worked(seen.generics),
        traits::worked(seen.traits),
        lifetimes::worked(seen.lifetimes),
{
    Walkthrough { generics: generics::run(), traits: traits::run(), lifetimes: lifetimes::run() }
}

} // verus!
