//! The runtime values the interpreter moves across its operand stack, and
//! the narrow capability predicates through which opcodes interrogate the
//! out-of-scope host/object layer: "is this value exactly undefined", "is
//! it null or undefined", "coerce to boolean", "does it support
//! construction".

use vstd::prelude::*;

verus! {

/// A handle to an object owned by the host's object layer. The engine never
/// looks inside an object; it only carries handles and reads the one
/// capability bit the construction opcodes need.
#[derive(Debug, Clone, Copy, PartialEq, Eq, Structural)]
pub struct JsObject {
    /// The host's identity for the object.
    pub id: u32,
    /// Whether the object supports the construction protocol.
    pub constructible: bool,
}

/// A runtime value.
#[derive(Debug, Clone, Copy, PartialEq, Eq, Structural)]
pub enum JsValue {
    Undefined,
    Null,
    Boolean(bool),
    Integer(i32),
    Object(JsObject),
}

/// Language truthiness coercion: `undefined` and `null` are false, a
/// boolean is itself, an integer is true unless zero, an object is true.
pub open spec fn truthy(value: JsValue) -> bool {
    match value {
        JsValue::Undefined => false,
        JsValue::Null => false,
        JsValue::Boolean(b) => b,
        JsValue::Integer(i) => i != 0,
        JsValue::Object(_) => true,
    }
}

/// The construction capability of a value: an object handle whose
/// `constructible` bit is set, or nothing.
pub open spec fn as_constructor_spec(value: JsValue) -> Option<JsObject> {
    match value {
        JsValue::Object(object) => if object.constructible {
            Some(object)
        } else {
            None
        },
        _ => None,
    }
}

/// Whether a value supports the construction protocol.
pub open spec fn is_constructor(value: JsValue) -> bool {
    as_constructor_spec(value) is Some
}

impl JsValue {
    /// Whether this value is exactly the `undefined` value.
    pub fn is_undefined(&self) -> (r: bool)
        ensures
            r == (*self is Undefined),
    {
        matches!(self, JsValue::Undefined)
    }

    /// Whether this value is `null` or `undefined`.
    pub fn is_null_or_undefined(&self) -> (r: bool)
        ensures
            r == (*self is Null || *self is Undefined),
    {
        matches!(self, JsValue::Null | JsValue::Undefined)
    }

    /// Language truthiness coercion of this value.
    pub fn to_boolean(&self) -> (r: bool)
        ensures
            r == truthy(*self),
    {
        match self {
            JsValue::Undefined => false,
            JsValue::Null => false,
            JsValue::Boolean(b) => *b,
            JsValue::Integer(i) => *i != 0,
            JsValue::Object(_) => true,
        }
    }

    /// The construction capability of this value, if it has one.
    pub fn as_constructor(&self) -> (r: Option<JsObject>)
        ensures
            r == as_constructor_spec(*self),
    {
        match self {
            JsValue::Object(object) => if object.constructible {
                Some(*object)
            } else {
                None
            },
            _ => None,
        }
    }
}

} // verus!
