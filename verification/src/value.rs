//! The values that the machine computes with.

use std::sync::Arc;
use vstd::prelude::*;

verus! {

/// A payload that the host defines and the machine only carries.
pub trait NativeObject {

}

/// A heap object. It is shared only through [`Value::Object`].
pub enum Object {
    /// A record of values.
    Values(Vec<Box<Value>>),
    /// Something of the host's.
    Native(Box<dyn NativeObject>),
}

/// A value on the operand stack, in a local or in an argument list.
///
/// A float is held as its IEEE 754 binary32 bit pattern.
pub enum Value {
    Null,
    Boolean(bool),
    Integer(i32),
    Float(u32),
    String(String),
    Object(Arc<Object>),
}

/// What a [`Value`] is, with text as a sequence of characters.
pub enum ValueModel {
    Null,
    Boolean(bool),
    Integer(i32),
    Float(u32),
    String(Seq<char>),
    Object(Arc<Object>),
}

impl View for Value {
    type V = ValueModel;

    open spec fn view(&self) -> ValueModel {
        match self {
            Value::Null => ValueModel::Null,
            Value::Boolean(b) => ValueModel::Boolean(*b),
            Value::Integer(i) => ValueModel::Integer(*i),
            Value::Float(bits) => ValueModel::Float(*bits),
            Value::String(s) => ValueModel::String(s@),
            Value::Object(o) => ValueModel::Object(*o),
        }
    }
}

impl Clone for Value {
    /// A copy of the value. An object is shared with the copy, not duplicated.
    fn clone(&self) -> (r: Self)
        ensures
            r == *self,
    {
        match self {
            Value::Null => Value::Null,
            Value::Boolean(b) => Value::Boolean(*b),
            Value::Integer(i) => Value::Integer(*i),
            Value::Float(bits) => Value::Float(*bits),
            Value::String(s) => Value::String(s.clone()),
            Value::Object(o) => Value::Object(o.clone()),
        }
    }
}

/// The models of a sequence of values, one for one.
pub open spec fn values_view(values: Seq<Value>) -> Seq<ValueModel> {
    Seq::new(values.len(), |i: int| values[i]@)
}

/// The models of a stack of frames, one for one.
pub open spec fn frames_view(frames: Seq<Vec<Value>>) -> Seq<Seq<ValueModel>> {
    Seq::new(frames.len(), |i: int| values_view(frames[i]@))
}

} // verus!
