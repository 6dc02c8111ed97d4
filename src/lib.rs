//! The object-model core of an ECMAScript engine: values, property
//! descriptors, ordinary objects with their prototype chains, and the
//! abstract operations on values (coercion and the equality family).

pub mod annex_b;
pub mod bigint;
pub mod cast;
pub mod completions;
pub mod errors;
pub mod heap;
pub mod id;
pub mod internal_methods;
pub mod numbers;
pub mod objects;
pub mod operations;
pub mod property;
pub mod symbol;
pub mod value;

pub use bigint::BigIntRep;
pub use cast::{
    e262_to_boolean, e262_to_integer_or_infinity, e262_to_length, e262_to_number,
    IntegerOrInfinity,
};
pub use completions::Completion;
pub use errors::{CoreError, CoreResult};
pub use id::MagicId;
pub use internal_methods::{Object, OrdinaryObject};
pub use numbers::Number;
pub use heap::{p262_get_slot, p262_has_slot, Heap, ObjectRep};
pub use objects::{BaseObject, PropertyKey, SlotValue};
pub use operations::{
    e262_is_strictly_equal, e262_same_value, e262_same_value_non_number, e262_same_value_zero,
    e262_type, Type,
};
pub use property::{Descriptor, Property};
pub use symbol::{SymbolRegistry, SymbolRep};
pub use value::{
    p262_bigint, p262_boolean, p262_null, p262_number, p262_str, p262_string, p262_symbol,
    p262_undefined, StringRep, Value,
};
