//! Variable references, assignments, and read-count queries.

use crate::path::Path;
use vstd::prelude::*;

verus! {

/// An assignment of the evaluation stack's top to a named variable.
#[derive(Debug, Clone)]
pub struct VariableAssignment {
    pub name: String,
    pub is_new_declaration: bool,
}

/// A read of a named variable's value onto the evaluation stack.
#[derive(Debug, Clone)]
pub struct VariableReference {
    pub name: String,
}

/// A query of the visit count of the container at `target`.
#[derive(Debug, Clone)]
pub struct ReadCount {
    pub target: Path,
}

} // verus!
