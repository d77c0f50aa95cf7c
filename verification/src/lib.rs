//! Generation, sorting and presentation of small integer vectors.
//!
//! The crate draws pseudo-random integers from a linear-congruential
//! generator, fills vectors with them, sorts the vectors in place with
//! bubble sort, checks the result for non-decreasing order, renders
//! truncated previews of a vector, and parses signed integers typed at a
//! console prompt.

pub mod builder;
pub mod parse;
pub mod preview;
pub mod rng;
pub mod sort;
