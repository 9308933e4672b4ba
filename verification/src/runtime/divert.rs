//! Diverts: jumps to another node of the graph, optionally pushing a frame.

use crate::callstack::PushPopType;
use crate::path::Path;
use vstd::prelude::*;

verus! {

/// Where a divert points: a literal path, or the name of a variable whose
/// stored divert-target value is resolved first.
#[derive(Debug, Clone)]
pub enum TargetType {
    Path(Path),
    VarName(String),
}

/// A jump through the graph.  `push_type` says whether following it pushes a
/// call-stack frame, and as which kind of call; an external divert calls a
/// host-registered function instead of graph content.
#[derive(Debug, Clone)]
pub struct Divert {
    pub target: TargetType,
    pub push_type: Option<PushPopType>,
    pub is_external: bool,
    pub is_conditional: bool,
}

impl Divert {
    /// A plain divert to `target`: no frame push, not external, unconditional.
    pub fn new(target: TargetType) -> (r: Divert)
        ensures
            r.target == target,
            r.push_type is None,
            !r.is_external,
            !r.is_conditional,
    {
        Divert { target, push_type: None, is_external: false, is_conditional: false }
    }
}

} // verus!
