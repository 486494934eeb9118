//! The error returned by the exercises that need a non-empty input.

use vstd::prelude::*;

verus! {

/// Returned when a list that must hold at least one element is empty.
#[derive(Debug, PartialEq, Eq, Structural)]
pub enum InputError {
    Empty,
}

} // verus!
