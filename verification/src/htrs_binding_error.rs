//! The error of reading a command from its arguments.

use vstd::prelude::*;

verus! {

/// A command could not be bound from the arguments given.
#[derive(Debug)]
pub struct HtrsBindingError {
    pub description: String,
}

} // verus!
