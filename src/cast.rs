//! Type coercions: ToBoolean, ToNumber, ToIntegerOrInfinity and ToLength.

use vstd::prelude::*;

use crate::errors::{CoreError, CoreResult};
use crate::numbers::{
    clamp, finite_bits, integral_bits, nan_bits, negative_bits, truncated, zero_bits, Number, MAX_SAFE_INTEGER, NAN_BITS,
    NEGATIVE_INFINITY_BITS, ONE_BITS, POSITIVE_INFINITY_BITS,
};
use crate::annex_b::{html_dda_name, html_dda_slot};
use crate::heap::{p262_has_slot, Heap};
use crate::value::Value;

verus! {

/// ToBoolean: null, undefined, false, the zeros, NaN, the zero BigInt and
/// the empty string are false, and every other value is true, objects
/// included; with the legacy behaviours on, the `document.all` object (the
/// one that carries its marker slot) is false.
pub open spec fn to_boolean_spec(heap: Heap, v: Value) -> bool {
    match v {
        Value::Boolean(b) => b,
        Value::Null => false,
        Value::Undefined => false,
        Value::Number(n) => !zero_bits(n.bits) && !nan_bits(n.bits),
        Value::BigInt(b) => !b.is_zero_spec(),
        Value::String(s) => s@.len() > 0,
        Value::Symbol(_) => true,
        Value::Object(o) => !(heap.annex_b_view() && heap.object(o).slots_view().contains_key(
            html_dda_slot(),
        )),
    }
}

/// ToBoolean. The heap holds the objects that the value may designate.
pub fn e262_to_boolean(heap: &Heap, argument: &Value) -> (r: bool)
    requires
        heap.wf(),
        *argument matches Value::Object(o) ==> heap.contains(o),
    ensures
        r == to_boolean_spec(*heap, *argument),
{
    match argument {
        Value::Boolean(value) => *value,
        Value::Null | Value::Undefined => false,
        Value::Number(value) => !crate::numbers::is_zero(*value) && !crate::numbers::is_nan(*value),
        Value::BigInt(value) => !crate::bigint::is_zero(value),
        Value::String(value) => !value.as_str().is_empty(),
        Value::Symbol(_) => true,
        Value::Object(value) => {
            if heap.annex_b() {
                !p262_has_slot(heap, *value, html_dda_name())
            } else {
                true
            }
        },
    }
}

/// The number that a string converts to, given what a decimal parser read
/// in it: that number, or NaN where it read none.
pub open spec fn string_number(read: Option<Number>) -> u64 {
    match read {
        Some(n) => n.bits,
        None => NAN_BITS,
    }
}

/// The message of the TypeError that ToNumber throws on a BigInt.
pub open spec fn bigint_to_number_message() -> Seq<char> {
    "Cannot convert BigInt value into Number"@
}

/// The message of the TypeError that ToNumber throws on a Symbol.
pub open spec fn symbol_to_number_message() -> Seq<char> {
    "Cannot convert Symbol value into Number"@
}

/// ToNumber: `Ok` with the bit pattern of the result, or `Err` with the
/// message of the TypeError it throws. `read` is what a decimal parser read
/// in `v` when `v` is a String: reading binary64 text takes floating point,
/// which this library leaves to its callers. The number of an object is left
/// unstated (`None`): it needs the object-to-primitive protocol, which is not
/// part of this core.
pub open spec fn to_number_spec(v: Value, read: Option<Number>) -> Option<Result<u64, Seq<char>>> {
    match v {
        Value::Number(n) => Some(Ok(n.bits)),
        Value::BigInt(_) => Some(Err(bigint_to_number_message())),
        Value::Symbol(_) => Some(Err(symbol_to_number_message())),
        Value::Undefined => Some(Ok(NAN_BITS)),
        Value::Null => Some(Ok(0)),
        Value::Boolean(b) => Some(Ok(if b { ONE_BITS } else { 0 })),
        Value::String(_) => Some(Ok(string_number(read))),
        Value::Object(_) => None,
    }
}

/// `r` is the error that ToNumber throws with message `m`.
pub open spec fn type_error_with<T>(r: CoreResult<T>, m: Seq<char>) -> bool {
    r matches Err(CoreError::TypeError(e)) && e@ == m
}

/// ToNumber. `read` is what a decimal parser read in the argument, when it
/// is a String, and is not looked at otherwise. An object gives some number.
pub fn e262_to_number(argument: &Value, read: Option<Number>) -> (r: CoreResult<Number>)
    ensures
        to_number_spec(*argument, read) matches Some(Ok(b)) ==> (r matches Ok(n) && n.bits == b),
        to_number_spec(*argument, read) matches Some(Err(m)) ==> type_error_with(r, m),
        to_number_spec(*argument, read) is None ==> r is Ok,
{
    match argument {
        Value::Number(value) => Ok(*value),
        Value::BigInt(_) => Err(
            CoreError::TypeError("Cannot convert BigInt value into Number".to_string()),
        ),
        Value::Symbol(_) => Err(
            CoreError::TypeError("Cannot convert Symbol value into Number".to_string()),
        ),
        Value::Undefined => Ok(Number::from_bits(NAN_BITS)),
        Value::Null => Ok(Number::from_bits(0)),
        Value::Boolean(false) => Ok(Number::from_bits(0)),
        Value::Boolean(true) => Ok(Number::from_bits(ONE_BITS)),
        Value::String(_) => match read {
            Some(n) => Ok(n),
            None => Ok(Number::from_bits(NAN_BITS)),
        },
        Value::Object(_) => Ok(Number::from_bits(ONE_BITS)),
    }
}

/// The outcome of ToIntegerOrInfinity.
#[derive(Clone, Copy, Debug)]
pub enum IntegerOrInfinity {
    /// -Infinity.
    NegativeInfinity,
    /// A finite integer, held as an integral Number.
    Integer(Number),
    /// +Infinity.
    PositiveInfinity,
}

/// `r` is what ToIntegerOrInfinity gives for the number with bits `b`: +0
/// for a NaN or a zero, the infinities for themselves, and otherwise the
/// number truncated toward zero (an integral number of the same sign).
pub open spec fn integer_outcome(b: u64, r: IntegerOrInfinity) -> bool {
    if nan_bits(b) || zero_bits(b) {
        r matches IntegerOrInfinity::Integer(n) && n.bits == 0
    } else if b == POSITIVE_INFINITY_BITS {
        r is PositiveInfinity
    } else if b == NEGATIVE_INFINITY_BITS {
        r is NegativeInfinity
    } else {
        r matches IntegerOrInfinity::Integer(n) && finite_bits(n.bits) && integral_bits(n.bits)
            && negative_bits(n.bits) == negative_bits(b) && truncated(n.bits) == truncated(b)
    }
}

/// ToLength of the number with bits `b`: NaN and the non-positive numbers
/// give 0, +Infinity gives 2^53 - 1, and any other number is truncated and
/// clamped into `[0, 2^53 - 1]`.
pub open spec fn length_of(b: u64) -> int {
    if nan_bits(b) {
        0
    } else if b == POSITIVE_INFINITY_BITS {
        MAX_SAFE_INTEGER as int
    } else if b == NEGATIVE_INFINITY_BITS {
        0
    } else {
        clamp(truncated(b), 0, MAX_SAFE_INTEGER as int)
    }
}

/// A number that is neither a NaN nor an infinity is finite.
proof fn lemma_finite(b: u64)
    requires
        !nan_bits(b),
        b != POSITIVE_INFINITY_BITS,
        b != NEGATIVE_INFINITY_BITS,
    ensures
        finite_bits(b),
{
    assert(!(b & 0x7ff0_0000_0000_0000u64 == 0x7ff0_0000_0000_0000u64 && b
        & 0x000f_ffff_ffff_ffffu64 != 0) && b != 0x7ff0_0000_0000_0000u64 && b
        != 0xfff0_0000_0000_0000u64 ==> b & 0x7ff0_0000_0000_0000u64
        != 0x7ff0_0000_0000_0000u64) by (bit_vector);
}

/// ToIntegerOrInfinity. `read` is as for [`e262_to_number`].
pub fn e262_to_integer_or_infinity(argument: &Value, read: Option<Number>) -> (r: CoreResult<
    IntegerOrInfinity,
>)
    ensures
        to_number_spec(*argument, read) matches Some(Ok(b)) ==> (r matches Ok(i)
            && integer_outcome(b, i)),
        to_number_spec(*argument, read) matches Some(Err(m)) ==> type_error_with(r, m),
        to_number_spec(*argument, read) is None ==> r is Ok,
        r matches Ok(IntegerOrInfinity::Integer(n)) ==> finite_bits(n.bits) && integral_bits(
            n.bits,
        ),
{
    let number = match e262_to_number(argument, read) {
        Ok(number) => number,
        Err(err) => return Err(err),
    };
    if crate::numbers::is_zero(number) || crate::numbers::is_nan(number) {
        proof {
            assert(0u64 & !0x8000_0000_0000_0000u64 == 0) by (bit_vector);
            crate::numbers::lemma_zero_truncates(0);
        }
        Ok(IntegerOrInfinity::Integer(Number::from_bits(0)))
    } else if crate::numbers::is_pos_inf(number) {
        Ok(IntegerOrInfinity::PositiveInfinity)
    } else if crate::numbers::is_neg_inf(number) {
        Ok(IntegerOrInfinity::NegativeInfinity)
    } else {
        proof {
            lemma_finite(number.bits);
        }
        Ok(IntegerOrInfinity::Integer(crate::numbers::truncate(number)))
    }
}

/// ToLength: an integer in `[0, 2^53 - 1]`. `read` is as for
/// [`e262_to_number`].
pub fn e262_to_length(argument: &Value, read: Option<Number>) -> (r: CoreResult<u64>)
    ensures
        to_number_spec(*argument, read) matches Some(Ok(b)) ==> (r matches Ok(l) && l
            == length_of(b)),
        to_number_spec(*argument, read) matches Some(Err(m)) ==> type_error_with(r, m),
        to_number_spec(*argument, read) is None ==> (r matches Ok(l) && l <= MAX_SAFE_INTEGER),
{
    let length = match e262_to_integer_or_infinity(argument, read) {
        Ok(length) => length,
        Err(err) => return Err(err),
    };
    let l: u64 = match length {
        IntegerOrInfinity::NegativeInfinity => 0,
        IntegerOrInfinity::PositiveInfinity => MAX_SAFE_INTEGER,
        IntegerOrInfinity::Integer(value) => crate::numbers::clamp_length(value),
    };
    proof {
        assert(0u64 & !0x8000_0000_0000_0000u64 == 0) by (bit_vector);
        crate::numbers::lemma_zero_truncates(0);
        let ob = to_number_spec(*argument, read);
        if ob matches Some(Ok(_)) {
            let b = ob->Some_0->Ok_0;
            assert(0x7ff0_0000_0000_0000u64 & 0x000f_ffff_ffff_ffffu64 == 0) by (bit_vector);
            if zero_bits(b) {
                crate::numbers::lemma_zero_truncates(b);
            }
        }
    }
    Ok(l)
}

} // verus!
