//! Language values and their constructors.

use vstd::prelude::*;

use crate::bigint::BigIntRep;
use crate::numbers::{number_equal_spec, Number};
use crate::heap::ObjectRep;
use crate::symbol::SymbolRep;

verus! {

/// An immutable string value.
pub type StringRep = String;

/// A value of any language type.
#[derive(Debug)]
pub enum Value {
    /// The null value.
    Null,
    /// The undefined value.
    Undefined,
    /// A Boolean value.
    Boolean(bool),
    /// A Number value.
    Number(Number),
    /// A BigInt value.
    BigInt(BigIntRep),
    /// A Symbol value.
    Symbol(SymbolRep),
    /// A String value.
    String(StringRep),
    /// An Object value.
    Object(ObjectRep),
}

/// What `==` on values means: the same variant and the same payload, where
/// numbers compare as IEEE-754 values (a NaN equals nothing, +0 equals -0),
/// symbols by their tags and objects by identity. This is not one of the
/// equality operations of the language: see the `operations` module.
pub open spec fn values_equal(x: Value, y: Value) -> bool {
    match (x, y) {
        (Value::Null, Value::Null) => true,
        (Value::Undefined, Value::Undefined) => true,
        (Value::Boolean(a), Value::Boolean(b)) => a == b,
        (Value::Number(a), Value::Number(b)) => number_equal_spec(a.bits, b.bits),
        (Value::BigInt(a), Value::BigInt(b)) => a@ == b@,
        (Value::Symbol(a), Value::Symbol(b)) => a.tag() == b.tag(),
        (Value::String(a), Value::String(b)) => a@ == b@,
        (Value::Object(a), Value::Object(b)) => a == b,
        _ => false,
    }
}

impl PartialEq for Value {
    fn eq(&self, other: &Value) -> (r: bool)
        ensures
            r == values_equal(*self, *other),
    {
        match (self, other) {
            (Value::Null, Value::Null) => true,
            (Value::Undefined, Value::Undefined) => true,
            (Value::Boolean(a), Value::Boolean(b)) => *a == *b,
            (Value::Number(a), Value::Number(b)) => crate::numbers::e262_equal(*a, *b),
            (Value::BigInt(a), Value::BigInt(b)) => crate::bigint::e262_equal(a, b),
            (Value::Symbol(a), Value::Symbol(b)) => a.id() == b.id(),
            (Value::String(a), Value::String(b)) => a.eq(b),
            (Value::Object(a), Value::Object(b)) => *a == *b,
            _ => false,
        }
    }
}

impl vstd::std_specs::cmp::PartialEqSpecImpl for Value {
    open spec fn obeys_eq_spec() -> bool {
        true
    }

    open spec fn eq_spec(&self, other: &Value) -> bool {
        values_equal(*self, *other)
    }
}

/// Creates a BigInt value.
pub fn p262_bigint(value: BigIntRep) -> (r: Value)
    ensures
        r == Value::BigInt(value),
{
    Value::BigInt(value)
}

/// Creates a Boolean value.
pub fn p262_boolean(value: bool) -> (r: Value)
    ensures
        r == Value::Boolean(value),
{
    Value::Boolean(value)
}

/// Creates a Number value.
pub fn p262_number(value: Number) -> (r: Value)
    ensures
        r == Value::Number(value),
{
    Value::Number(value)
}

/// Creates the null value.
pub fn p262_null() -> (r: Value)
    ensures
        r == Value::Null,
{
    Value::Null
}

/// Creates a String value from a string value.
pub fn p262_str(value: StringRep) -> (r: Value)
    ensures
        r == Value::String(value),
{
    Value::String(value)
}

/// Creates a String value from a `String`.
pub fn p262_string(value: String) -> (r: Value)
    ensures
        r == Value::String(value),
{
    Value::String(value)
}

/// Creates a Symbol value with a fresh tag and the given description.
pub fn p262_symbol(description: Option<String>) -> (r: Value)
    ensures
        r matches Value::Symbol(s) && s.description_view() == crate::symbol::optional_text(
            description,
        ),
{
    Value::Symbol(SymbolRep::new(description))
}

/// Creates the undefined value.
pub fn p262_undefined() -> (r: Value)
    ensures
        r == Value::Undefined,
{
    Value::Undefined
}

} // verus!
