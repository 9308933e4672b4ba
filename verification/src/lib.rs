//! Execution substrate for a compiled interactive-narrative graph: content
//! nodes, hierarchical paths, the wire decoding of containers, and the
//! flow-state machine (call stack, threads, evaluation stack, output stream).

pub mod callstack;
pub mod path;
pub mod runtime;
pub mod runtime_graph;
pub mod story_state;
