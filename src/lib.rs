//! Classification of audio amplitudes into bins whose edges are evenly spaced in decibels.
//!
//! Amplitudes are carried as the bit pattern of an IEEE-754 binary32 number (`Level`), whose
//! numeric order the library reasons about through an integer rank. The float arithmetic that
//! produces the edges (`10^(db/20)`) stays with the caller; the library validates the resulting
//! edge table, classifies values by binary search, counts them in a histogram and supplies a
//! deterministic xorshift source of sample draws.
use vstd::prelude::*;

pub mod bins;
pub mod histogram;
pub mod level;
pub mod rng;
pub mod table;

verus! {

} // verus!
