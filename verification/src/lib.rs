//! A primer of small, self-contained routines, each stated with a contract
//! and proved against it.
//!
//! The centrepiece is the keyed memoizing cache in [`closures`]. Around it
//! stand short exercises on branching, functions, enums, structs, slices,
//! collections, generics and iteration, a number guessing game that is
//! played one line at a time, and the work on text that two of them share.
//! Every module but [`text`] has a `run` that works the module's example and
//! returns what it found, for a caller to print.

pub mod branches;
pub mod closures;
pub mod collections;
pub mod enums;
pub mod functions;
pub mod generics;
pub mod guessing_game;
pub mod iterators;
pub mod rectangles;
pub mod slices;
pub mod structs;
pub mod text;
pub mod variables;
