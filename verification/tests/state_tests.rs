use ink_runtime::callstack::ExecError;
use ink_runtime::callstack::PushPopType;
use ink_runtime::path::Path;
use ink_runtime::runtime::control_command::ControlCommand;
use ink_runtime::runtime::value::Value;
use ink_runtime::story_state::Choice;
use ink_runtime::story_state::OutputItem;
use ink_runtime::story_state::StoryState;

fn root() -> Path {
    Path::from_str("0").unwrap()
}

fn fresh() -> StoryState {
    StoryState::new(root())
}

#[test]
fn control_command_tokens_are_stable() {
    assert_eq!(ControlCommand::EvalStart.token(), "ev");
    assert_eq!(ControlCommand::EvalEnd.token(), "/ev");
    assert_eq!(ControlCommand::EvalOutput.token(), "out");
    assert_eq!(ControlCommand::Duplicate.token(), "du");
    assert_eq!(ControlCommand::PopEvaluatedValue.token(), "pop");
    assert_eq!(ControlCommand::PopFunction.token(), "~ret");
    assert_eq!(ControlCommand::PopTunnel.token(), "->->");
    assert_eq!(ControlCommand::BeginString.token(), "str");
    assert_eq!(ControlCommand::EndString.token(), "/str");
    assert_eq!(ControlCommand::NoOp.token(), "nop");
    assert_eq!(ControlCommand::ChoiceCount.token(), "choiceCnt");
    assert_eq!(ControlCommand::TurnsSince.token(), "turns");
    assert_eq!(ControlCommand::ReadCount.token(), "readc");
    assert_eq!(ControlCommand::Random.token(), "rnd");
    assert_eq!(ControlCommand::SeedRandom.token(), "srnd");
    assert_eq!(ControlCommand::VisitIndex.token(), "visit");
    assert_eq!(ControlCommand::SequenceShuffleIndex.token(), "seq");
    assert_eq!(ControlCommand::StartThread.token(), "thread");
    assert_eq!(ControlCommand::Done.token(), "done");
    assert_eq!(ControlCommand::End.token(), "end");
    assert_eq!(ControlCommand::ListFromInt.token(), "listInt");
    assert_eq!(ControlCommand::ListRange.token(), "range");
}

#[test]
fn value_text_renders_integers() {
    assert_eq!(Value::Int(0).to_text(), "0");
    assert_eq!(Value::Int(42).to_text(), "42");
    assert_eq!(Value::Int(-42).to_text(), "-42");
    assert_eq!(Value::Str("hi".to_string()).to_text(), "hi");
    assert_eq!(Value::DivertTarget(Path::from_str(".a.1").unwrap()).to_text(), ".a.1");
}

#[test]
fn string_capture_removes_text_and_pushes_one_string() {
    let mut st = fresh();
    st.emit_text("before".to_string());
    st.begin_eval();
    st.begin_string().unwrap();
    st.emit_text("hello ".to_string());
    st.emit_text("world".to_string());
    st.end_string().unwrap();
    // The captured span is gone from the stream; only the prior text stays.
    assert_eq!(st.output.len(), 1);
    assert!(matches!(&st.output[0], OutputItem::Text(t) if t == "before"));
    // One concatenated string value sits on the evaluation stack.
    assert_eq!(st.eval_stack.len(), 1);
    assert!(matches!(&st.eval_stack[0], Value::Str(s) if s == "hello world"));
    assert!(st.in_expression_evaluation);
}

#[test]
fn end_string_without_begin_is_reported() {
    let mut st = fresh();
    st.emit_text("loose".to_string());
    assert_eq!(st.end_string(), Err(ExecError::NoStringMarker));
    // Nothing changed.
    assert_eq!(st.output.len(), 1);
    assert!(st.eval_stack.is_empty());
}

#[test]
fn begin_string_outside_evaluation_mode_is_reported() {
    let mut st = fresh();
    assert_eq!(st.begin_string(), Err(ExecError::NotInEvaluationMode));
}

#[test]
fn pop_function_on_tunnel_frame_is_reported_and_stack_intact() {
    let mut st = fresh();
    st.push_call(PushPopType::Tunnel, root());
    let frames_before = st.callstack.threads.last().unwrap().frames.len();
    assert_eq!(st.pop_call(PushPopType::Function), Err(ExecError::PopTypeMismatch));
    assert_eq!(st.callstack.threads.last().unwrap().frames.len(), frames_before);
    // The matching pop succeeds.
    assert!(st.pop_call(PushPopType::Tunnel).is_ok());
    assert_eq!(st.callstack.threads.last().unwrap().frames.len(), frames_before - 1);
}

#[test]
fn pop_tunnel_on_function_frame_is_reported_and_stack_intact() {
    let mut st = fresh();
    st.push_call(PushPopType::Function, root());
    assert_eq!(st.pop_call(PushPopType::Tunnel), Err(ExecError::PopTypeMismatch));
    assert!(st.pop_call(PushPopType::Function).is_ok());
    // The base frame can never be popped.
    assert_eq!(st.pop_call(PushPopType::Function), Err(ExecError::PopTypeMismatch));
}

#[test]
fn end_clears_threads_and_choices() {
    let mut st = fresh();
    st.push_call(PushPopType::Tunnel, root());
    st.start_thread();
    st.start_thread();
    st.add_choice(Choice {
        text: "go".to_string(),
        target_path: root(),
        thread: st.callstack.threads.last().unwrap().clone(),
    });
    assert_eq!(st.callstack.threads.len(), 3);
    assert_eq!(st.current_choices.len(), 1);
    st.end_flow();
    assert!(st.current_choices.is_empty());
    assert_eq!(st.callstack.threads.len(), 1);
    assert_eq!(st.callstack.threads[0].frames.len(), 1);
    assert!(st.flow_finished);
}

#[test]
fn done_pops_a_thread_or_finishes() {
    let mut st = fresh();
    st.start_thread();
    assert_eq!(st.callstack.threads.len(), 2);
    st.done_flow();
    assert_eq!(st.callstack.threads.len(), 1);
    assert!(!st.flow_finished);
    st.done_flow();
    assert_eq!(st.callstack.threads.len(), 1);
    assert!(st.flow_finished);
}

#[test]
fn eval_stack_ops_work_and_report_underflow() {
    let mut st = fresh();
    assert_eq!(st.pop_eval().unwrap_err(), ExecError::EmptyEvaluationStack);
    assert_eq!(st.duplicate_top().unwrap_err(), ExecError::EmptyEvaluationStack);
    assert_eq!(st.eval_output().unwrap_err(), ExecError::EmptyEvaluationStack);
    st.push_eval(Value::Int(7));
    st.duplicate_top().unwrap();
    assert_eq!(st.eval_stack.len(), 2);
    let top = st.pop_eval().unwrap();
    assert!(matches!(top, Value::Int(7)));
    st.eval_output().unwrap();
    assert!(st.eval_stack.is_empty());
    assert!(matches!(&st.output[0], OutputItem::Text(t) if t == "7"));
}

#[test]
fn choice_count_pushes_pending_count() {
    let mut st = fresh();
    st.add_choice(Choice {
        text: "one".to_string(),
        target_path: root(),
        thread: st.callstack.threads.last().unwrap().clone(),
    });
    st.push_choice_count();
    assert!(matches!(st.eval_stack.last().unwrap(), Value::Int(1)));
}

#[test]
fn glue_and_tags_reach_the_output_stream() {
    let mut st = fresh();
    st.emit_glue();
    st.emit_tag("mood: tense".to_string());
    assert!(matches!(st.output[0], OutputItem::Glue));
    assert!(matches!(&st.output[1], OutputItem::Tag(t) if t == "mood: tense"));
}

#[test]
fn empty_string_capture_yields_empty_string() {
    let mut st = fresh();
    st.begin_eval();
    st.begin_string().unwrap();
    st.end_string().unwrap();
    assert!(st.output.is_empty());
    assert!(matches!(&st.eval_stack[0], Value::Str(s) if s.is_empty()));
}

#[test]
fn string_capture_keeps_nested_value_output() {
    let mut st = fresh();
    st.begin_eval();
    st.begin_string().unwrap();
    st.emit_text("n = ".to_string());
    st.push_eval(Value::Int(-3));
    st.eval_output().unwrap();
    st.end_string().unwrap();
    assert!(st.output.is_empty());
    assert!(matches!(&st.eval_stack[0], Value::Str(s) if s == "n = -3"));
}

#[test]
fn cloned_thread_repeats_the_frames() {
    let mut st = fresh();
    st.push_call(PushPopType::Function, Path::from_str("a.1").unwrap());
    st.start_thread();
    let threads = &st.callstack.threads;
    assert_eq!(threads.len(), 2);
    let first = &threads[0];
    let second = &threads[1];
    assert_eq!(first.frames.len(), second.frames.len());
    for (a, b) in first.frames.iter().zip(second.frames.iter()) {
        assert_eq!(a.kind, b.kind);
        assert_eq!(a.location.to_text(), b.location.to_text());
    }
}
