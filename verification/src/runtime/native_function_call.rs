//! Native function calls: built-in operators invoked by name.

use vstd::prelude::*;

verus! {

/// An operator applied to values popped from the evaluation stack:
/// identified by name, with a fixed number of parameters.
#[derive(Debug, Clone)]
pub struct NativeFunctionCall {
    pub name: String,
    pub number_of_parameters: usize,
}

} // verus!
