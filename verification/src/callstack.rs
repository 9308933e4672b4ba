//! Call-stack frames and threads of the execution engine.
//!
//! A frame is a resumption point; its kind records whether the frame is the
//! base of a thread or was pushed by a function call or by a tunnel call, so
//! that the two pop opcodes can check they close the matching kind of frame.

use crate::path::path_equiv;
use crate::path::Path;
use vstd::prelude::*;

verus! {

/// The way a call-stack frame was pushed: as a function call or as a tunnel
/// call.  The two pop opcodes each accept only their own kind.
#[derive(Debug, Clone, Copy, PartialEq, Eq, Structural)]
pub enum PushPopType {
    Tunnel,
    Function,
}

/// The kind of a frame: the base of a thread, or a pushed call of one of the
/// two push kinds.
#[derive(Debug, Clone, Copy, PartialEq, Eq, Structural)]
pub enum FrameKind {
    Root,
    Function,
    Tunnel,
}

pub open spec fn kind_of_push(t: PushPopType) -> FrameKind {
    match t {
        PushPopType::Tunnel => FrameKind::Tunnel,
        PushPopType::Function => FrameKind::Function,
    }
}

/// One resumption point: where execution continues, and how the frame came
/// to be on the stack.
#[derive(Debug, Clone)]
pub struct Frame {
    pub kind: FrameKind,
    pub location: Path,
}

/// An independent, fully duplicated snapshot of a frame sequence.  The first
/// frame of a well-formed thread is its base (`Root`) frame.
#[derive(Debug, Clone)]
pub struct Thread {
    pub frames: Vec<Frame>,
}

/// The session's call stack: one or more threads, the last one active.
#[derive(Debug, Clone)]
pub struct CallStack {
    pub threads: Vec<Thread>,
}

/// A thread is well formed when it starts with exactly one base frame.
pub open spec fn thread_wf(t: Thread) -> bool {
    &&& t.frames@.len() >= 1
    &&& t.frames@[0].kind is Root
    &&& forall|i: int| 1 <= i < t.frames@.len() ==> !(#[trigger] t.frames@[i].kind is Root)
}

/// A call stack is well formed when it has at least one thread and every
/// thread is well formed.
pub open spec fn callstack_wf(cs: CallStack) -> bool {
    &&& cs.threads@.len() >= 1
    &&& forall|i: int| 0 <= i < cs.threads@.len() ==> thread_wf(#[trigger] cs.threads@[i])
}

/// The errors an opcode can raise against the flow state.  Each is fatal to
/// the current turn and leaves the state as it was before the opcode.
#[derive(Debug, Clone, Copy, PartialEq, Eq, Structural)]
pub enum ExecError {
    /// A pop opcode found a frame pushed the other way, or only the base
    /// frame left.
    PopTypeMismatch,
    /// A value opcode found the evaluation stack empty.
    EmptyEvaluationStack,
    /// The string-capture end opcode found no matching begin marker.
    NoStringMarker,
    /// The string-capture begin opcode ran outside evaluation mode.
    NotInEvaluationMode,
}

impl Thread {
    /// A fresh thread: a single base frame at the given location.
    pub fn new(location: Path) -> (r: Thread)
        ensures
            thread_wf(r),
            r.frames@.len() == 1,
            r.frames@[0].kind is Root,
            r.frames@[0].location == location,
    {
        let base = Frame { kind: FrameKind::Root, location };
        let mut frames: Vec<Frame> = Vec::new();
        frames.push(base);
        Thread { frames }
    }
}

impl CallStack {
    /// A fresh call stack: one thread whose base frame sits at `location`.
    pub fn new(location: Path) -> (r: CallStack)
        ensures
            callstack_wf(r),
            r.threads@.len() == 1,
            r.threads@[0].frames@.len() == 1,
            r.threads@[0].frames@[0].location == location,
    {
        let mut threads: Vec<Thread> = Vec::new();
        threads.push(Thread::new(location));
        CallStack { threads }
    }

    /// The active thread is the last one.
    pub open spec fn active_thread(self) -> Thread
        recommends
            self.threads@.len() >= 1,
    {
        self.threads@.last()
    }

    /// Push a frame of the given push kind onto the active thread.
    pub fn push_frame(&mut self, t: PushPopType, location: Path)
        requires
            callstack_wf(*old(self)),
        ensures
            callstack_wf(*final(self)),
            final(self).threads@.len() == old(self).threads@.len(),
            final(self).threads@.drop_last() == old(self).threads@.drop_last(),
            final(self).active_thread().frames@ == old(self).active_thread().frames@.push(
                Frame { kind: kind_of_push(t), location },
            ),
    {
        let kind = match t {
            PushPopType::Tunnel => FrameKind::Tunnel,
            PushPopType::Function => FrameKind::Function,
        };
        let frame = Frame { kind, location };
        let mut thread = self.threads.pop().unwrap();
        thread.frames.push(frame);
        self.threads.push(thread);
        proof {
            assert(final(self).threads@.drop_last() =~= old(self).threads@.drop_last());
            assert(callstack_wf(*final(self)));
        }
    }

    /// Pop the top frame of the active thread, checking that it was pushed
    /// the way `t` says.  On a mismatch — or when only the base frame is
    /// left — nothing changes and the mismatch is reported: the stack stays
    /// intact up to the offending frame.
    pub fn pop_frame(&mut self, t: PushPopType) -> (r: Result<(), ExecError>)
        requires
            callstack_wf(*old(self)),
        ensures
            callstack_wf(*final(self)),
            r is Ok <==> (old(self).active_thread().frames@.len() > 1 && old(self).active_thread().frames@.last().kind == kind_of_push(t)),
            r matches Err(e) ==> e is PopTypeMismatch && *final(self) == *old(self),
            r is Ok ==> final(self).threads@.len() == old(self).threads@.len() && final(self).threads@.drop_last() == old(self).threads@.drop_last() && final(self).active_thread().frames@ == old(self).active_thread().frames@.drop_last(),
    {
        let idx = self.threads.len() - 1;
        let n = self.threads[idx].frames.len();
        if n <= 1 {
            return Err(ExecError::PopTypeMismatch);
        }
        let top_kind = self.threads[idx].frames[n - 1].kind;
        let matches_kind = match (top_kind, t) {
            (FrameKind::Function, PushPopType::Function) => true,
            (FrameKind::Tunnel, PushPopType::Tunnel) => true,
            _ => false,
        };
        if !matches_kind {
            return Err(ExecError::PopTypeMismatch);
        }
        let mut thread = self.threads.pop().unwrap();
        thread.frames.pop();
        self.threads.push(thread);
        proof {
            assert(final(self).threads@.drop_last() =~= old(self).threads@.drop_last());
            assert(final(self).active_thread().frames@ =~= old(self).active_thread().frames@.drop_last());
            assert(callstack_wf(*final(self)));
        }
        Ok(())
    }

    /// Clone the active thread's whole frame sequence into a new independent
    /// thread, which becomes the active one.
    pub fn start_thread(&mut self)
        requires
            callstack_wf(*old(self)),
        ensures
            callstack_wf(*final(self)),
            final(self).threads@.len() == old(self).threads@.len() + 1,
            final(self).threads@.drop_last() == old(self).threads@,
            final(self).active_thread().frames@.len() == old(self).active_thread().frames@.len(),
            forall|i: int|
                0 <= i < old(self).active_thread().frames@.len() ==> {
                    &&& (#[trigger] final(self).active_thread().frames@[i]).kind == old(self).active_thread().frames@[i].kind
                    &&& path_equiv(
                        final(self).active_thread().frames@[i].location,
                        old(self).active_thread().frames@[i].location,
                    )
                },
    {
        let idx = self.threads.len() - 1;
        let n = self.threads[idx].frames.len();
        let mut frames: Vec<Frame> = Vec::new();
        let mut i: usize = 0;
        while i < n
            invariant
                self.threads@ == old(self).threads@,
                callstack_wf(*self),
                idx == self.threads@.len() - 1,
                n == self.threads@[idx as int].frames@.len(),
                i <= n,
                frames@.len() == i,
                forall|j: int|
                    0 <= j < i ==> {
                        &&& (#[trigger] frames@[j]).kind == self.threads@[idx as int].frames@[
                            j
                        ].kind
                        &&& path_equiv(
                            frames@[j].location,
                            self.threads@[idx as int].frames@[j].location,
                        )
                    },
            decreases n - i,
        {
            let kind = self.threads[idx].frames[i].kind;
            let location = self.threads[idx].frames[i].location.duplicate();
            frames.push(Frame { kind, location });
            i = i + 1;
        }
        self.threads.push(Thread { frames });
        proof {
            assert(final(self).threads@.drop_last() =~= old(self).threads@);
            assert(callstack_wf(*final(self)));
        }
    }

    /// Pop the active thread.  Meaningful only while more than one thread is
    /// alive; the caller (`done`) keeps the last thread instead.
    pub fn pop_thread(&mut self)
        requires
            callstack_wf(*old(self)),
            old(self).threads@.len() > 1,
        ensures
            callstack_wf(*final(self)),
            final(self).threads@ == old(self).threads@.drop_last(),
    {
        self.threads.pop();
    }

    /// Unwind everything: keep only the base thread, and truncate it to its
    /// base frame.  This is the call-stack half of the `end` opcode.
    pub fn reset_to_root(&mut self)
        requires
            callstack_wf(*old(self)),
        ensures
            callstack_wf(*final(self)),
            final(self).threads@.len() == 1,
            final(self).active_thread().frames@.len() == 1,
            final(self).active_thread().frames@[0] == old(self).threads@[0].frames@[0],
    {
        self.threads.truncate(1);
        let mut thread = self.threads.pop().unwrap();
        thread.frames.truncate(1);
        self.threads.push(thread);
        proof {
            assert(final(self).active_thread().frames@ =~= seq![
                old(self).threads@[0].frames@[0],
            ]);
            assert(callstack_wf(*final(self)));
        }
    }
}

} // verus!
