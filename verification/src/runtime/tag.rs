//! Tags: free-form annotation strings attached to content.

use vstd::prelude::*;

verus! {

/// A free-form annotation carried through to the output stream.
#[derive(Debug, Clone)]
pub struct Tag {
    pub text: String,
}

} // verus!
