//! The closed catalogue of zero-operand stack-machine opcodes, each with its
//! exact, stable wire token.

use vstd::prelude::*;

verus! {

/// A control command, interpreted against the evaluation stack, the output
/// stream, and the call stack.
#[derive(Debug, Clone, Copy, PartialEq, Eq, Structural)]
pub enum ControlCommand {
    /// Enter evaluation mode: encountered objects push onto the evaluation
    /// stack instead of the output stream.
    EvalStart,
    /// Pop the evaluation stack's top and append it to the output stream.
    EvalOutput,
    /// Leave evaluation mode: objects append to the output stream again.
    EvalEnd,
    /// Duplicate the evaluation stack's top.
    Duplicate,
    /// Pop the evaluation stack's top and discard it.
    PopEvaluatedValue,
    /// Pop the call stack; the top frame must have been pushed as a
    /// function call.
    PopFunction,
    /// Pop the call stack; the top frame must have been pushed as a tunnel
    /// call.
    PopTunnel,
    /// Begin string capture: mark the current output position.  Must already
    /// be in evaluation mode.
    BeginString,
    /// End string capture: concatenate all output since the matching begin
    /// marker into one string value, remove that output from the stream,
    /// push the string, re-enter evaluation mode.
    EndString,
    /// No effect, but an addressable divert target.
    NoOp,
    /// Push the number of currently pending choices.
    ChoiceCount,
    /// Pop a divert target; push the turns elapsed since it was last
    /// visited.
    TurnsSince,
    /// Push the read count of the current container's addressable position.
    ReadCount,
    /// Pop a range argument; push a pseudo-random integer from the
    /// session's seeded generator.
    Random,
    /// Pop a seed value; reseed the session's random generator.
    SeedRandom,
    /// Push the current container's visit index.
    VisitIndex,
    /// Pop an element count; push the next deterministic shuffle index for
    /// the current sequence point.
    SequenceShuffleIndex,
    /// Clone the whole current thread into a new independent thread.
    StartThread,
    /// Pop the current thread if more than one is active; otherwise mark
    /// the flow cleanly finished.
    Done,
    /// Terminate the story flow: clear all threads but the base, unwind to
    /// root, discard pending choices.
    End,
    /// Pop an integer; push a single-item list value wrapping it.
    ListFromInt,
    /// Pop bounds; push a range-constructed list value.
    ListRange,
}

/// The wire token of each opcode.
pub open spec fn command_token(c: ControlCommand) -> Seq<char> {
    match c {
        ControlCommand::EvalStart => "ev"@,
        ControlCommand::EvalOutput => "out"@,
        ControlCommand::EvalEnd => "/ev"@,
        ControlCommand::Duplicate => "du"@,
        ControlCommand::PopEvaluatedValue => "pop"@,
        ControlCommand::PopFunction => "~ret"@,
        ControlCommand::PopTunnel => "->->"@,
        ControlCommand::BeginString => "str"@,
        ControlCommand::EndString => "/str"@,
        ControlCommand::NoOp => "nop"@,
        ControlCommand::ChoiceCount => "choiceCnt"@,
        ControlCommand::TurnsSince => "turns"@,
        ControlCommand::ReadCount => "readc"@,
        ControlCommand::Random => "rnd"@,
        ControlCommand::SeedRandom => "srnd"@,
        ControlCommand::VisitIndex => "visit"@,
        ControlCommand::SequenceShuffleIndex => "seq"@,
        ControlCommand::StartThread => "thread"@,
        ControlCommand::Done => "done"@,
        ControlCommand::End => "end"@,
        ControlCommand::ListFromInt => "listInt"@,
        ControlCommand::ListRange => "range"@,
    }
}

impl ControlCommand {
    /// The exact wire token of this opcode.
    pub fn token(&self) -> (r: &'static str)
        ensures
            r@ == command_token(*self),
    {
        match self {
            ControlCommand::EvalStart => "ev",
            ControlCommand::EvalOutput => "out",
            ControlCommand::EvalEnd => "/ev",
            ControlCommand::Duplicate => "du",
            ControlCommand::PopEvaluatedValue => "pop",
            ControlCommand::PopFunction => "~ret",
            ControlCommand::PopTunnel => "->->",
            ControlCommand::BeginString => "str",
            ControlCommand::EndString => "/str",
            ControlCommand::NoOp => "nop",
            ControlCommand::ChoiceCount => "choiceCnt",
            ControlCommand::TurnsSince => "turns",
            ControlCommand::ReadCount => "readc",
            ControlCommand::Random => "rnd",
            ControlCommand::SeedRandom => "srnd",
            ControlCommand::VisitIndex => "visit",
            ControlCommand::SequenceShuffleIndex => "seq",
            ControlCommand::StartThread => "thread",
            ControlCommand::Done => "done",
            ControlCommand::End => "end",
            ControlCommand::ListFromInt => "listInt",
            ControlCommand::ListRange => "range",
        }
    }
}

} // verus!
