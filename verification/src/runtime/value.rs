//! Typed literal values carried by content nodes and the evaluation stack.

use crate::path::dec_str;
use crate::path::push_dec;
use crate::path::path_equiv;
use crate::path::path_text;
use crate::path::Path;
use vstd::prelude::*;
use vstd::string::StringExecFns;

verus! {

/// A typed literal: an integer, a string, or a divert target.
#[derive(Debug, Clone)]
pub enum Value {
    Int(i32),
    Str(String),
    DivertTarget(Path),
}

/// Decimal text of a signed integer: a minus sign for negatives, then the
/// canonical digit string of the magnitude.
pub open spec fn int_text(n: int) -> Seq<char> {
    if n >= 0 {
        dec_str(n as nat)
    } else {
        seq!['-'] + dec_str((-n) as nat)
    }
}

/// The text a value contributes to the output stream.
pub open spec fn value_text(v: Value) -> Seq<char> {
    match v {
        Value::Int(n) => int_text(n as int),
        Value::Str(s) => s@,
        Value::DivertTarget(p) => path_text(p),
    }
}

/// Structural sameness of two values, comparing strings by their text.
pub open spec fn value_equiv(a: Value, b: Value) -> bool {
    match (a, b) {
        (Value::Int(x), Value::Int(y)) => x == y,
        (Value::Str(s), Value::Str(t)) => s@ == t@,
        (Value::DivertTarget(p), Value::DivertTarget(q)) => path_equiv(p, q),
        _ => false,
    }
}

impl Value {
    /// A copy whose sameness with the original is known to the verifier.
    pub fn duplicate(&self) -> (r: Value)
        ensures
            value_equiv(*self, r),
    {
        match self {
            Value::Int(n) => Value::Int(*n),
            Value::Str(s) => Value::Str(s.clone()),
            Value::DivertTarget(p) => Value::DivertTarget(p.duplicate()),
        }
    }
}

impl Value {
    /// The text this value contributes when it reaches the output stream.
    pub fn to_text(&self) -> (r: String)
        ensures
            r@ == value_text(*self),
    {
        match self {
            Value::Int(n) => {
                let mut out = String::new();
                if *n < 0 {
                    out.append("-");
                    proof {
                        reveal_strlit("-");
                    }
                    let wide: i64 = *n as i64;
                    let mag: usize = (-wide) as usize;
                    push_dec(&mut out, mag);
                    proof {
                        assert(out@ =~= value_text(*self));
                    }
                } else {
                    push_dec(&mut out, *n as usize);
                }
                out
            },
            Value::Str(s) => s.clone(),
            Value::DivertTarget(p) => p.to_text(),
        }
    }
}

} // verus!
