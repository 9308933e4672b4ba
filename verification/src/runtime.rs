//! The content node model: the tagged union of every element that can
//! appear in the compiled graph, and its submodules.

pub mod choice_point;
pub mod container;
pub mod control_command;
pub mod divert;
pub mod glue;
pub mod native_function_call;
pub mod tag;
pub mod value;
pub mod variable;

use crate::runtime::choice_point::ChoicePoint;
use crate::runtime::container::Container;
use crate::runtime::control_command::ControlCommand;
use crate::runtime::divert::Divert;
use crate::runtime::glue::Glue;
use crate::runtime::native_function_call::NativeFunctionCall;
use crate::runtime::tag::Tag;
use crate::runtime::value::Value;
use crate::runtime::variable::ReadCount;
use crate::runtime::variable::VariableAssignment;
use crate::runtime::variable::VariableReference;
use std::rc::Rc;
use vstd::prelude::*;

verus! {

/// Any element of the compiled graph.  A node is exactly one of these;
/// `Null` is a wire-format placeholder that must never reach evaluation.
#[derive(Debug, Clone)]
pub enum RuntimeObject {
    Choice(ChoicePoint),
    Container(Rc<Container>),
    ControlCommand(ControlCommand),
    Divert(Divert),
    Glue(Glue),
    NativeFunctionCall(NativeFunctionCall),
    Tag(Tag),
    Value(Value),
    VariableAssignment(VariableAssignment),
    VariableReference(VariableReference),
    ReadCount(ReadCount),
    Void,
    Null,
}

/// The name under which an object can be addressed from its parent: only a
/// named container has one.
pub open spec fn obj_name(o: RuntimeObject) -> Option<Seq<char>> {
    match o {
        RuntimeObject::Container(c) => match c.name {
            Some(s) => Some(s@),
            None => None,
        },
        _ => None,
    }
}

impl RuntimeObject {
    /// Whether this node is a container.
    pub fn is_container(&self) -> (r: bool)
        ensures
            r == (*self is Container),
    {
        match self {
            RuntimeObject::Container(_) => true,
            _ => false,
        }
    }

    /// This node's container, if it is one.
    pub fn as_container(&self) -> (r: Option<&Rc<Container>>)
        ensures
            r is Some <==> *self is Container,
            r matches Some(c) ==> *self matches RuntimeObject::Container(c2) && c2 == *c,
    {
        match self {
            RuntimeObject::Container(container) => Some(container),
            _ => None,
        }
    }

    /// This node's value, if it is one.
    pub fn as_value(&self) -> (r: Option<&Value>)
        ensures
            r is Some <==> *self is Value,
            r matches Some(v) ==> *self matches RuntimeObject::Value(v2) && v2 == *v,
    {
        match self {
            RuntimeObject::Value(value) => Some(value),
            _ => None,
        }
    }

    /// The name under which this node can be addressed, if any.
    pub fn name(&self) -> (r: Option<&str>)
        ensures
            r is Some <==> obj_name(*self) is Some,
            r matches Some(s) ==> obj_name(*self) == Some(s@),
    {
        match self {
            RuntimeObject::Container(container) => match &container.name {
                Some(s) => Some(s.as_str()),
                None => None,
            },
            _ => None,
        }
    }
}

} // verus!
