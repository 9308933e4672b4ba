//! The mutable flow state of one session: evaluation stack, output stream,
//! string capture, pending choices, and the call stack with its threads.
//!
//! Each opcode of the instruction set that acts on this state alone has a
//! method here; an opcode that fails reports its error and leaves the state
//! exactly as it was, so a turn can be aborted cleanly.

use crate::callstack::callstack_wf;
use crate::callstack::CallStack;
use crate::callstack::ExecError;
use crate::callstack::PushPopType;
use crate::callstack::Thread;
use crate::path::Path;
use crate::runtime::value::value_text;
use crate::runtime::value::Value;
use vstd::prelude::*;
use vstd::string::StringExecFns;

verus! {

/// One fragment of the per-turn output stream.
#[derive(Debug, Clone)]
pub enum OutputItem {
    /// Plain story text.
    Text(String),
    /// A free-form annotation.
    Tag(String),
    /// A whitespace-joining marker; the presentation layer interprets it.
    Glue,
    /// The position marker that string-capture begin leaves behind.
    StringMarker,
}

/// A choice surfaced to the host: display text, the path picking it resumes
/// at, and the thread snapshot captured when it was materialized.
#[derive(Debug, Clone)]
pub struct Choice {
    pub text: String,
    pub target_path: Path,
    pub thread: Thread,
}

/// What ending a string capture yields, reading the output stream from its
/// end: everything up to the most recent marker stays, and the text of what
/// came after the marker is the captured string.  `None` when no marker is
/// in the stream.
pub open spec fn capture(output: Seq<OutputItem>) -> Option<(Seq<OutputItem>, Seq<char>)>
    decreases output.len(),
{
    if output.len() == 0 {
        None
    } else {
        match output.last() {
            OutputItem::StringMarker => Some((output.drop_last(), Seq::empty())),
            OutputItem::Text(s) => match capture(output.drop_last()) {
                Some(pr) => Some((pr.0, pr.1 + s@)),
                None => None,
            },
            _ => capture(output.drop_last()),
        }
    }
}

/// The concatenated text of the `Text` items, in order.
pub open spec fn texts_of(items: Seq<OutputItem>) -> Seq<char>
    decreases items.len(),
{
    if items.len() == 0 {
        Seq::empty()
    } else {
        texts_of(items.drop_last()) + (match items.last() {
            OutputItem::Text(s) => s@,
            _ => Seq::<char>::empty(),
        })
    }
}

proof fn lemma_capture_at(output: Seq<OutputItem>, j: int)
    requires
        0 <= j < output.len(),
        output[j] is StringMarker,
        forall|i: int| j < i < output.len() ==> !((#[trigger] output[i]) is StringMarker),
    ensures
        capture(output) == Some((output.take(j), texts_of(output.skip(j + 1)))),
    decreases output.len() - j,
{
    if j == output.len() - 1 {
        assert(output.last() is StringMarker);
        assert(output.take(j) =~= output.drop_last());
        assert(output.skip(j + 1) =~= Seq::<OutputItem>::empty());
    } else {
        let shorter = output.drop_last();
        lemma_capture_at(shorter, j);
        assert(shorter.take(j) =~= output.take(j));
        assert(output.skip(j + 1).drop_last() =~= shorter.skip(j + 1));
        assert(output.skip(j + 1).last() == output.last());
        assert(texts_of(output.skip(j + 1)) == texts_of(shorter.skip(j + 1)) + (
        match output.last() {
            OutputItem::Text(s) => s@,
            _ => Seq::<char>::empty(),
        }));
        match output.last() {
            OutputItem::StringMarker => {
                assert(false);
            },
            OutputItem::Text(s) => {},
            _ => {
                assert(texts_of(output.skip(j + 1)) =~= texts_of(shorter.skip(j + 1)));
            },
        }
    }
}

/// Without a marker anywhere in the stream, ending a capture has nothing to
/// match: the law behind reporting `/str` without `str`.
pub proof fn lemma_capture_none(output: Seq<OutputItem>)
    requires
        forall|i: int| 0 <= i < output.len() ==> !((#[trigger] output[i]) is StringMarker),
    ensures
        capture(output) is None,
    decreases output.len(),
{
    if output.len() > 0 {
        lemma_capture_none(output.drop_last());
    }
}

/// String-capture round trip: whatever the stream held before, beginning a
/// capture and emitting any text items yields exactly the old stream back
/// and the concatenation of those texts as the captured string.
pub proof fn lemma_string_capture_round_trip(o: Seq<OutputItem>, texts: Seq<OutputItem>)
    requires
        forall|i: int| 0 <= i < texts.len() ==> (#[trigger] texts[i]) is Text,
    ensures
        capture(o.push(OutputItem::StringMarker) + texts) == Some((o, texts_of(texts))),
    decreases texts.len(),
{
    let whole = o.push(OutputItem::StringMarker) + texts;
    if texts.len() == 0 {
        assert(whole =~= o.push(OutputItem::StringMarker));
        assert(whole.last() is StringMarker);
        assert(whole.drop_last() =~= o);
    } else {
        lemma_string_capture_round_trip(o, texts.drop_last());
        assert(whole.drop_last() =~= o.push(OutputItem::StringMarker) + texts.drop_last());
        assert(whole.last() == texts.last());
        assert(texts.last() is Text);
    }
}

/// The mutable state of one session's flow.
#[derive(Debug)]
pub struct StoryState {
    pub eval_stack: Vec<Value>,
    pub output: Vec<OutputItem>,
    pub in_expression_evaluation: bool,
    pub callstack: CallStack,
    pub current_choices: Vec<Choice>,
    pub flow_finished: bool,
}

/// A state is well formed when its call stack is.
pub open spec fn state_wf(st: StoryState) -> bool {
    callstack_wf(st.callstack)
}

/// Everything except the evaluation stack and evaluation-mode flag is the
/// same in both states.
pub open spec fn same_but_eval(a: StoryState, b: StoryState) -> bool {
    &&& a.output == b.output
    &&& a.callstack == b.callstack
    &&& a.current_choices == b.current_choices
    &&& a.flow_finished == b.flow_finished
}

/// Everything except the output stream is the same in both states.
pub open spec fn same_but_output(a: StoryState, b: StoryState) -> bool {
    &&& a.eval_stack == b.eval_stack
    &&& a.in_expression_evaluation == b.in_expression_evaluation
    &&& a.callstack == b.callstack
    &&& a.current_choices == b.current_choices
    &&& a.flow_finished == b.flow_finished
}

/// Everything except the call stack is the same in both states.
pub open spec fn same_but_callstack(a: StoryState, b: StoryState) -> bool {
    &&& a.eval_stack == b.eval_stack
    &&& a.output == b.output
    &&& a.in_expression_evaluation == b.in_expression_evaluation
    &&& a.current_choices == b.current_choices
    &&& a.flow_finished == b.flow_finished
}

impl StoryState {
    /// A fresh session state: everything empty, content mode, one thread at
    /// the root location.
    pub fn new(root_location: Path) -> (r: StoryState)
        ensures
            state_wf(r),
            r.eval_stack@.len() == 0,
            r.output@.len() == 0,
            !r.in_expression_evaluation,
            r.current_choices@.len() == 0,
            !r.flow_finished,
            r.callstack.threads@.len() == 1,
    {
        StoryState {
            eval_stack: Vec::new(),
            output: Vec::new(),
            in_expression_evaluation: false,
            callstack: CallStack::new(root_location),
            current_choices: Vec::new(),
            flow_finished: false,
        }
    }

    /// The `ev` opcode: enter evaluation mode.
    pub fn begin_eval(&mut self)
        ensures
            final(self).in_expression_evaluation,
            final(self).eval_stack == old(self).eval_stack,
            same_but_eval(*final(self), *old(self)),
    {
        self.in_expression_evaluation = true;
    }

    /// The `/ev` opcode: leave evaluation mode.
    pub fn end_eval(&mut self)
        ensures
            !final(self).in_expression_evaluation,
            final(self).eval_stack == old(self).eval_stack,
            same_but_eval(*final(self), *old(self)),
    {
        self.in_expression_evaluation = false;
    }

    /// Push a value onto the evaluation stack.
    pub fn push_eval(&mut self, v: Value)
        ensures
            final(self).eval_stack@ == old(self).eval_stack@.push(v),
            final(self).in_expression_evaluation == old(self).in_expression_evaluation,
            same_but_eval(*final(self), *old(self)),
    {
        self.eval_stack.push(v);
    }

    /// The `pop` opcode: pop the evaluation stack's top and discard it.
    /// An empty stack is a reported error and changes nothing.
    pub fn pop_eval(&mut self) -> (r: Result<Value, ExecError>)
        ensures
            r is Ok <==> old(self).eval_stack@.len() > 0,
            r matches Err(e) ==> e is EmptyEvaluationStack && *final(self) == *old(self),
            r matches Ok(v) ==> v == old(self).eval_stack@.last() && final(self).eval_stack@
                == old(self).eval_stack@.drop_last() && final(self).in_expression_evaluation
                == old(self).in_expression_evaluation && same_but_eval(
                *final(self),
                *old(self),
            ),
    {
        if self.eval_stack.len() == 0 {
            return Err(ExecError::EmptyEvaluationStack);
        }
        let v = self.eval_stack.pop().unwrap();
        Ok(v)
    }

    /// The `du` opcode: duplicate the evaluation stack's top.
    pub fn duplicate_top(&mut self) -> (r: Result<(), ExecError>)
        ensures
            r is Ok <==> old(self).eval_stack@.len() > 0,
            r matches Err(e) ==> e is EmptyEvaluationStack && *final(self) == *old(self),
            r is Ok ==> final(self).eval_stack@.len() == old(self).eval_stack@.len() + 1
                && final(self).eval_stack@.drop_last() == old(self).eval_stack@
                && crate::runtime::value::value_equiv(
                final(self).eval_stack@.last(),
                old(self).eval_stack@.last(),
            ) && final(self).in_expression_evaluation == old(self).in_expression_evaluation
                && same_but_eval(*final(self), *old(self)),
    {
        let n = self.eval_stack.len();
        if n == 0 {
            return Err(ExecError::EmptyEvaluationStack);
        }
        let copy = self.eval_stack[n - 1].duplicate();
        self.eval_stack.push(copy);
        proof {
            assert(final(self).eval_stack@.drop_last() =~= old(self).eval_stack@);
        }
        Ok(())
    }

    /// The `out` opcode: pop the evaluation stack's top and append its text
    /// to the output stream.
    pub fn eval_output(&mut self) -> (r: Result<(), ExecError>)
        ensures
            r is Ok <==> old(self).eval_stack@.len() > 0,
            r matches Err(e) ==> e is EmptyEvaluationStack && *final(self) == *old(self),
            r is Ok ==> final(self).eval_stack@ == old(self).eval_stack@.drop_last() && final(self).output@.len() == old(self).output@.len() + 1 && final(self).output@.drop_last()
                == old(self).output@ && (final(self).output@.last() matches OutputItem::Text(t)
                && t@ == value_text(old(self).eval_stack@.last())) && final(self).in_expression_evaluation == old(self).in_expression_evaluation && final(self).callstack == old(self).callstack && final(self).current_choices == old(self).current_choices && final(self).flow_finished == old(self).flow_finished,
    {
        if self.eval_stack.len() == 0 {
            return Err(ExecError::EmptyEvaluationStack);
        }
        let v = self.eval_stack.pop().unwrap();
        let text = v.to_text();
        self.output.push(OutputItem::Text(text));
        proof {
            assert(final(self).output@.drop_last() =~= old(self).output@);
        }
        Ok(())
    }

    /// Append story text to the output stream.
    pub fn emit_text(&mut self, text: String)
        ensures
            final(self).output@ == old(self).output@.push(OutputItem::Text(text)),
            same_but_output(*final(self), *old(self)),
    {
        self.output.push(OutputItem::Text(text));
    }

    /// Append a tag to the output stream.
    pub fn emit_tag(&mut self, text: String)
        ensures
            final(self).output@ == old(self).output@.push(OutputItem::Tag(text)),
            same_but_output(*final(self), *old(self)),
    {
        self.output.push(OutputItem::Tag(text));
    }

    /// Append a glue marker to the output stream.
    pub fn emit_glue(&mut self)
        ensures
            final(self).output@ == old(self).output@.push(OutputItem::Glue),
            same_but_output(*final(self), *old(self)),
    {
        self.output.push(OutputItem::Glue);
    }

    /// The `str` opcode: begin string capture.  The engine must already be
    /// in evaluation mode; a marker is left in the output stream and content
    /// mode is entered.
    pub fn begin_string(&mut self) -> (r: Result<(), ExecError>)
        ensures
            r is Ok <==> old(self).in_expression_evaluation,
            r matches Err(e) ==> e is NotInEvaluationMode && *final(self) == *old(self),
            r is Ok ==> final(self).output@ == old(self).output@.push(OutputItem::StringMarker)
                && !final(self).in_expression_evaluation && final(self).eval_stack == old(self).eval_stack && final(self).callstack == old(self).callstack && final(self).current_choices == old(self).current_choices && final(self).flow_finished == old(self).flow_finished,
    {
        if !self.in_expression_evaluation {
            return Err(ExecError::NotInEvaluationMode);
        }
        self.output.push(OutputItem::StringMarker);
        self.in_expression_evaluation = false;
        Ok(())
    }

    /// The `/str` opcode: end string capture.  All output since the most
    /// recent marker is removed from the stream; the text among it becomes
    /// one string value on the evaluation stack, and evaluation mode is
    /// re-entered.  Without a prior marker this is a reported error and
    /// changes nothing.
    pub fn end_string(&mut self) -> (r: Result<(), ExecError>)
        ensures
            r is Ok <==> capture(old(self).output@) is Some,
            r matches Err(e) ==> e is NoStringMarker && *final(self) == *old(self),
            r is Ok ==> (capture(old(self).output@) matches Some(pr) && {
                &&& final(self).output@ == pr.0
                &&& final(self).eval_stack@.len() == old(self).eval_stack@.len() + 1
                &&& final(self).eval_stack@.drop_last() == old(self).eval_stack@
                &&& (final(self).eval_stack@.last() matches Value::Str(s) && s@ == pr.1)
                &&& final(self).in_expression_evaluation
                &&& final(self).callstack == old(self).callstack
                &&& final(self).current_choices == old(self).current_choices
                &&& final(self).flow_finished == old(self).flow_finished
            }),
    {
        let n = self.output.len();
        let mut j: usize = n;
        let mut found = false;
        while j > 0 && !found
            invariant
                j <= n,
                n == self.output@.len(),
                !found ==> forall|i: int|
                    j <= i < n ==> !((#[trigger] self.output@[i]) is StringMarker),
                found ==> j < n && self.output@[j as int] is StringMarker && forall|i: int|
                    j < i < n ==> !((#[trigger] self.output@[i]) is StringMarker),
            decreases j + (if found {
                0int
            } else {
                1int
            }),
        {
            let probe = j - 1;
            match &self.output[probe] {
                OutputItem::StringMarker => {
                    found = true;
                    j = probe;
                },
                _ => {
                    j = probe;
                },
            }
        }
        if !found {
            proof {
                lemma_capture_none(self.output@);
            }
            return Err(ExecError::NoStringMarker);
        }
        proof {
            lemma_capture_at(self.output@, j as int);
        }
        let mut s = String::new();
        let mut i: usize = j + 1;
        while i < n
            invariant
                j + 1 <= i <= n,
                n == self.output@.len(),
                s@ == texts_of(self.output@.subrange(j + 1, i as int)),
            decreases n - i,
        {
            match &self.output[i] {
                OutputItem::Text(t) => {
                    s.append(t.as_str());
                },
                _ => {},
            }
            proof {
                assert(self.output@.subrange(j + 1, i + 1).drop_last() =~= self.output@.subrange(
                    j + 1,
                    i as int,
                ));
                assert(self.output@.subrange(j + 1, i + 1).last() == self.output@[i as int]);
            }
            i = i + 1;
        }
        proof {
            assert(self.output@.subrange(j + 1, n as int) =~= self.output@.skip(j + 1));
        }
        self.output.truncate(j);
        self.eval_stack.push(Value::Str(s));
        self.in_expression_evaluation = true;
        proof {
            assert(final(self).output@ =~= old(self).output@.take(j as int));
            assert(final(self).eval_stack@.drop_last() =~= old(self).eval_stack@);
        }
        Ok(())
    }

    /// Record a materialized choice on the choice surface.
    pub fn add_choice(&mut self, c: Choice)
        ensures
            final(self).current_choices@ == old(self).current_choices@.push(c),
            final(self).eval_stack == old(self).eval_stack,
            final(self).output == old(self).output,
            final(self).in_expression_evaluation == old(self).in_expression_evaluation,
            final(self).callstack == old(self).callstack,
            final(self).flow_finished == old(self).flow_finished,
    {
        self.current_choices.push(c);
    }

    /// The `choiceCnt` opcode: push the number of pending choices.  A
    /// machine limit: the count must fit the integer value type.
    pub fn push_choice_count(&mut self)
        requires
            old(self).current_choices@.len() <= i32::MAX as int,
        ensures
            final(self).eval_stack@ == old(self).eval_stack@.push(
                Value::Int(old(self).current_choices@.len() as i32),
            ),
            final(self).in_expression_evaluation == old(self).in_expression_evaluation,
            same_but_eval(*final(self), *old(self)),
    {
        let count = self.current_choices.len();
        self.eval_stack.push(Value::Int(count as i32));
    }

    /// The `thread` opcode: clone the whole current thread.
    pub fn start_thread(&mut self)
        requires
            state_wf(*old(self)),
        ensures
            state_wf(*final(self)),
            final(self).callstack.threads@.len() == old(self).callstack.threads@.len() + 1,
            final(self).callstack.threads@.drop_last() == old(self).callstack.threads@,
            final(self).callstack.active_thread().frames@.len() == old(
                self,
            ).callstack.active_thread().frames@.len(),
            forall|i: int|
                0 <= i < old(self).callstack.active_thread().frames@.len() ==> {
                    &&& (#[trigger] final(self).callstack.active_thread().frames@[i]).kind == old(
                        self,
                    ).callstack.active_thread().frames@[i].kind
                    &&& crate::path::path_equiv(
                        final(self).callstack.active_thread().frames@[i].location,
                        old(self).callstack.active_thread().frames@[i].location,
                    )
                },
            same_but_callstack(*final(self), *old(self)),
    {
        self.callstack.start_thread();
    }

    /// The `~ret` and `->->` opcodes: pop the call stack, checking the top
    /// frame was pushed the matching way.  On a mismatch the error is
    /// reported and the call stack is left intact up to the offending frame.
    pub fn pop_call(&mut self, t: PushPopType) -> (r: Result<(), ExecError>)
        requires
            state_wf(*old(self)),
        ensures
            state_wf(*final(self)),
            r is Ok <==> (old(self).callstack.active_thread().frames@.len() > 1 && old(self).callstack.active_thread().frames@.last().kind == crate::callstack::kind_of_push(t)),
            r matches Err(e) ==> e is PopTypeMismatch && *final(self) == *old(self),
            r is Ok ==> final(self).callstack.active_thread().frames@ == old(self).callstack.active_thread().frames@.drop_last() && final(self).callstack.threads@.len()
                == old(self).callstack.threads@.len() && same_but_callstack(
                *final(self),
                *old(self),
            ),
    {
        self.callstack.pop_frame(t)
    }

    /// Push a call-stack frame for a function or tunnel call.
    pub fn push_call(&mut self, t: PushPopType, location: Path)
        requires
            state_wf(*old(self)),
        ensures
            state_wf(*final(self)),
            final(self).callstack.active_thread().frames@ == old(self).callstack.active_thread().frames@.push(
                crate::callstack::Frame { kind: crate::callstack::kind_of_push(t), location },
            ),
            final(self).callstack.threads@.len() == old(self).callstack.threads@.len(),
            same_but_callstack(*final(self), *old(self)),
    {
        self.callstack.push_frame(t, location);
    }

    /// The `done` opcode: pop the current thread if another is alive,
    /// otherwise mark the flow cleanly finished.
    pub fn done_flow(&mut self)
        requires
            state_wf(*old(self)),
        ensures
            state_wf(*final(self)),
            old(self).callstack.threads@.len() > 1 ==> final(self).callstack.threads@ == old(self).callstack.threads@.drop_last() && final(self).flow_finished == old(self).flow_finished,
            old(self).callstack.threads@.len() == 1 ==> final(self).callstack == old(self).callstack && final(self).flow_finished,
            final(self).eval_stack == old(self).eval_stack,
            final(self).output == old(self).output,
            final(self).in_expression_evaluation == old(self).in_expression_evaluation,
            final(self).current_choices == old(self).current_choices,
    {
        if self.callstack.threads.len() > 1 {
            self.callstack.pop_thread();
        } else {
            self.flow_finished = true;
        }
    }

    /// The `end` opcode: terminate the story flow.  All threads but the
    /// base are cleared, the call stack unwinds to the root frame, every
    /// pending choice is discarded, and the flow is marked finished, so
    /// resuming takes an explicit restart.
    pub fn end_flow(&mut self)
        requires
            state_wf(*old(self)),
        ensures
            state_wf(*final(self)),
            final(self).callstack.threads@.len() == 1,
            final(self).callstack.active_thread().frames@.len() == 1,
            final(self).callstack.active_thread().frames@[0] == old(self).callstack.threads@[0].frames@[0],
            final(self).current_choices@.len() == 0,
            final(self).flow_finished,
            final(self).eval_stack == old(self).eval_stack,
            final(self).output == old(self).output,
            final(self).in_expression_evaluation == old(self).in_expression_evaluation,
    {
        self.callstack.reset_to_root();
        self.current_choices.clear();
        self.flow_finished = true;
    }
}

} // verus!
