//! Abstract operations on values: type tags and the equality family.

use vstd::arithmetic::power2::{lemma2_to64, pow2};
use vstd::bits::{lemma_u64_low_bits_mask_is_mod, low_bits_mask};
use vstd::prelude::*;

use crate::errors::{CoreError, CoreResult};
use crate::numbers::{
    integral_bits, number_equal_spec, number_same_value_spec,
    number_same_value_zero_spec, zero_bits, Number, EXPONENT_MASK, FRACTION_MASK,
};
use crate::value::Value;

verus! {

/// The language type of a value.
#[derive(Clone, Copy, Debug, PartialEq, Eq, Structural)]
pub enum Type {
    /// BigInt.
    BigInt,
    /// Boolean.
    Boolean,
    /// Number.
    Number,
    /// Null.
    Null,
    /// Object.
    Object,
    /// String.
    String,
    /// Symbol.
    Symbol,
    /// Undefined.
    Undefined,
}

/// The type of a value.
pub open spec fn type_of(value: Value) -> Type {
    match value {
        Value::BigInt(_) => Type::BigInt,
        Value::Boolean(_) => Type::Boolean,
        Value::Number(_) => Type::Number,
        Value::Null => Type::Null,
        Value::Object(_) => Type::Object,
        Value::String(_) => Type::String,
        Value::Symbol(_) => Type::Symbol,
        Value::Undefined => Type::Undefined,
    }
}

/// SameValueNonNumber: values of one type that is not Number compare by
/// value, symbols by their tags and objects by identity.
pub open spec fn same_value_non_number_spec(x: Value, y: Value) -> bool {
    match (x, y) {
        (Value::Null, Value::Null) => true,
        (Value::Undefined, Value::Undefined) => true,
        (Value::BigInt(a), Value::BigInt(b)) => a@ == b@,
        (Value::Boolean(a), Value::Boolean(b)) => a == b,
        (Value::String(a), Value::String(b)) => a@ == b@,
        (Value::Symbol(a), Value::Symbol(b)) => a.tag() == b.tag(),
        (Value::Object(a), Value::Object(b)) => a == b,
        _ => false,
    }
}

/// SameValue: NaN is the same as NaN, and +0 is not the same as -0.
pub open spec fn same_value_spec(x: Value, y: Value) -> bool {
    match (x, y) {
        (Value::Number(a), Value::Number(b)) => number_same_value_spec(a.bits, b.bits),
        _ => same_value_non_number_spec(x, y),
    }
}

/// SameValueZero: as SameValue, but +0 is the same as -0.
pub open spec fn same_value_zero_spec(x: Value, y: Value) -> bool {
    match (x, y) {
        (Value::Number(a), Value::Number(b)) => number_same_value_zero_spec(a.bits, b.bits),
        _ => same_value_non_number_spec(x, y),
    }
}

/// IsStrictlyEqual, the `===` of the language: a NaN equals nothing, and +0
/// equals -0.
pub open spec fn strictly_equal_spec(x: Value, y: Value) -> bool {
    match (x, y) {
        (Value::Number(a), Value::Number(b)) => number_equal_spec(a.bits, b.bits),
        _ => same_value_non_number_spec(x, y),
    }
}

/// Type: the type tag of a value.
pub fn e262_type(value: &Value) -> (r: Type)
    ensures
        r == type_of(*value),
{
    match value {
        Value::BigInt(_) => Type::BigInt,
        Value::Boolean(_) => Type::Boolean,
        Value::Number(_) => Type::Number,
        Value::Null => Type::Null,
        Value::Object(_) => Type::Object,
        Value::String(_) => Type::String,
        Value::Symbol(_) => Type::Symbol,
        Value::Undefined => Type::Undefined,
    }
}

/// IsIntegralNumber: the value is a finite Number with no fractional part.
pub fn e262_is_integral_number(argument: &Value) -> (r: bool)
    ensures
        r == (argument matches Value::Number(n) && integral_bits(n.bits)),
{
    match argument {
        Value::Number(n) => is_integral(*n),
        _ => false,
    }
}

/// Is the number finite and without a fractional part?
fn is_integral(n: Number) -> (r: bool)
    ensures
        r == integral_bits(n.bits),
{
    let b = n.bits;
    if b & EXPONENT_MASK == EXPONENT_MASK {
        return false;
    }
    if crate::numbers::is_zero(n) {
        return true;
    }
    let e = (b & EXPONENT_MASK) >> 52;
    if e < 1023 {
        false
    } else if e >= 1075 {
        true
    } else {
        let k: u64 = 1075 - e;
        proof {
            lemma2_to64();
            lemma_u64_low_bits_mask_is_mod(b & FRACTION_MASK, k as nat);
            vstd::bits::lemma_low_bits_mask_values();
            assert(1u64 <= k <= 52u64 ==> (1u64 << k) >= 1u64) by (bit_vector);
            vstd::bits::lemma_u64_pow2_no_overflow(k as nat);
            vstd::bits::lemma_u64_shl_is_mul(1, k);
            assert(low_bits_mask(k as nat) == pow2(k as nat) - 1);
        }
        (b & FRACTION_MASK) & ((1u64 << k) - 1) == 0
    }
}

/// IsPropertyKey: the value is a String or a Symbol.
pub fn e262_is_property_key(argument: &Value) -> (r: bool)
    ensures
        r == ((argument matches Value::String(_)) || (argument matches Value::Symbol(_))),
{
    match argument {
        Value::String(_) | Value::Symbol(_) => true,
        _ => false,
    }
}

/// The value is null or undefined.
pub open spec fn nullish(value: Value) -> bool {
    value matches Value::Null || value matches Value::Undefined
}

/// RequireObjectCoercible: null and undefined are rejected with a TypeError,
/// any other value is handed back.
pub fn e262_require_object_coercible(argument: Value) -> (r: CoreResult<Value>)
    ensures
        nullish(argument) ==> (r matches Err(CoreError::TypeError(_))),
        !nullish(argument) ==> r == Ok::<Value, CoreError>(argument),
{
    match argument {
        Value::Null => Err(CoreError::TypeError("Null value cannot be converted to object".to_string())),
        Value::Undefined => Err(
            CoreError::TypeError("Undefined value cannot be converted to object".to_string()),
        ),
        _ => Ok(argument),
    }
}

/// SameValueNonNumber on two values of one type other than Number.
pub fn e262_same_value_non_number(x: &Value, y: &Value) -> (r: bool)
    requires
        type_of(*x) == type_of(*y),
        type_of(*x) != Type::Number,
    ensures
        r == same_value_non_number_spec(*x, *y),
{
    match (x, y) {
        (Value::Null, Value::Null) => true,
        (Value::Undefined, Value::Undefined) => true,
        (Value::BigInt(a), Value::BigInt(b)) => crate::bigint::e262_equal(a, b),
        (Value::Boolean(a), Value::Boolean(b)) => *a == *b,
        (Value::String(a), Value::String(b)) => a.eq(b),
        (Value::Symbol(a), Value::Symbol(b)) => a.id() == b.id(),
        (Value::Object(a), Value::Object(b)) => *a == *b,
        _ => false,
    }
}

/// SameValue.
pub fn e262_same_value(x: &Value, y: &Value) -> (r: bool)
    ensures
        r == same_value_spec(*x, *y),
{
    if e262_type(x) != e262_type(y) {
        false
    } else {
        match (x, y) {
            (Value::Number(a), Value::Number(b)) => crate::numbers::e262_same_value(*a, *b),
            (_, _) => e262_same_value_non_number(x, y),
        }
    }
}

/// SameValueZero.
pub fn e262_same_value_zero(x: &Value, y: &Value) -> (r: bool)
    ensures
        r == same_value_zero_spec(*x, *y),
{
    if e262_type(x) != e262_type(y) {
        false
    } else {
        match (x, y) {
            (Value::Number(a), Value::Number(b)) => crate::numbers::e262_same_value_zero(*a, *b),
            (_, _) => e262_same_value_non_number(x, y),
        }
    }
}

/// IsStrictlyEqual.
pub fn e262_is_strictly_equal(x: &Value, y: &Value) -> (r: bool)
    ensures
        r == strictly_equal_spec(*x, *y),
{
    if e262_type(x) != e262_type(y) {
        false
    } else {
        match (x, y) {
            (Value::Number(a), Value::Number(b)) => crate::numbers::e262_equal(*a, *b),
            (_, _) => e262_same_value_non_number(x, y),
        }
    }
}

/// Every value is the same value as itself.
pub proof fn lemma_same_value_reflexive(v: std::rc::Rc<Value>)
    ensures
        same_value_spec(*v, *v),
{
}

} // verus!
