//! ActionScript 3 values as vectors store them.

use vstd::prelude::*;

verus! {

/// A handle to a script object.
#[derive(Clone, Copy, Debug, PartialEq, Eq, Structural)]
pub struct ObjectId(pub u32);

/// An ActionScript 3 value.
#[derive(Clone, Debug, PartialEq)]
pub enum Value {
    Undefined,
    Null,
    Bool(bool),
    /// A number, as the bit pattern of its `f64` value.
    Number(u64),
    Unsigned(u32),
    Integer(i32),
    String(String),
    Object(ObjectId),
}

/// The mathematical form of a [`Value`].
pub ghost enum ValueView {
    Undefined,
    Null,
    Bool(bool),
    Number(u64),
    Unsigned(u32),
    Integer(i32),
    String(Seq<char>),
    Object(ObjectId),
}

impl View for Value {
    type V = ValueView;

    open spec fn view(&self) -> ValueView {
        match self {
            Value::Undefined => ValueView::Undefined,
            Value::Null => ValueView::Null,
            Value::Bool(b) => ValueView::Bool(*b),
            Value::Number(n) => ValueView::Number(*n),
            Value::Unsigned(u) => ValueView::Unsigned(*u),
            Value::Integer(i) => ValueView::Integer(*i),
            Value::String(s) => ValueView::String(s@),
            Value::Object(o) => ValueView::Object(*o),
        }
    }
}

impl Value {
    /// A copy of the value.
    pub fn duplicate(&self) -> (r: Value)
        ensures
            r@ == self@,
    {
        match self {
            Value::Undefined => Value::Undefined,
            Value::Null => Value::Null,
            Value::Bool(b) => Value::Bool(*b),
            Value::Number(n) => Value::Number(*n),
            Value::Unsigned(u) => Value::Unsigned(*u),
            Value::Integer(i) => Value::Integer(*i),
            Value::String(s) => Value::String(s.clone()),
            Value::Object(o) => Value::Object(*o),
        }
    }
}

} // verus!
