//! Verified library of small exercises and a console visitor directory.
//!
//! The `treehouse` module holds the visitor roster and its admission
//! policy; the remaining modules are standalone algorithm exercises and
//! the arithmetic behind two small summing tools.

pub mod anagram;
pub mod change;
pub mod errors;
pub mod find_largest;
pub mod fizzbuzz;
pub mod squares;
pub mod subsequence;
pub mod sums;
pub mod tournament;
pub mod treehouse;
pub mod two_sum;
