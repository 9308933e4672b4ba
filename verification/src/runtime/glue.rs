//! Glue: a join marker that suppresses surrounding whitespace in output.

use vstd::prelude::*;

verus! {

/// A glue marker.  The engine only carries it through to the output stream;
/// the presentation layer does the joining.
#[derive(Debug, Clone, Copy, PartialEq, Eq, Structural)]
pub struct Glue;

} // verus!
