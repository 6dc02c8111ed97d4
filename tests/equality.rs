use es_core::operations::{e262_is_integral_number, e262_is_property_key, e262_require_object_coercible};
use es_core::{
    e262_is_strictly_equal, e262_same_value, e262_same_value_non_number, e262_same_value_zero,
    e262_type, BigIntRep, CoreError, Heap, Number, SymbolRep, Type, Value,
};

fn n(x: f64) -> Value {
    Value::Number(Number::from_bits(x.to_bits()))
}

#[test]
fn equality_family_on_numbers() {
    assert!(e262_same_value(&n(f64::NAN), &n(f64::NAN)));
    assert!(!e262_same_value(&n(0.0), &n(-0.0)));
    assert!(e262_is_strictly_equal(&n(0.0), &n(-0.0)));
    assert!(!e262_is_strictly_equal(&n(f64::NAN), &n(f64::NAN)));
    assert!(e262_same_value_zero(&n(0.0), &n(-0.0)));
    assert!(e262_same_value_zero(&n(f64::NAN), &n(f64::NAN)));
    assert!(e262_is_strictly_equal(&n(3.0), &n(3.0)));
    assert!(!e262_same_value(&n(3.0), &n(4.0)));
}

#[test]
fn equality_family_on_other_types() {
    let s = SymbolRep::named("k".to_string());
    let mut heap = Heap::new(false);
    let a = heap.create(None);
    let b = heap.create(None);
    assert!(e262_same_value(&Value::Symbol(s.clone()), &Value::Symbol(s.clone())));
    assert!(!e262_same_value(
        &Value::Symbol(s.clone()),
        &Value::Symbol(SymbolRep::named("k".to_string()))
    ));
    assert!(e262_same_value(&Value::Object(a), &Value::Object(a)));
    assert!(!e262_same_value(&Value::Object(a), &Value::Object(b)));
    assert!(e262_is_strictly_equal(&Value::String("x".into()), &Value::String("x".into())));
    assert!(!e262_same_value_zero(&Value::String("x".into()), &Value::String("y".into())));
    let big = |i: i64| Value::BigInt(BigIntRep::new(i < 0, vec![i.unsigned_abs() as u32]));
    assert!(e262_same_value(&big(12), &big(12)));
    assert!(!e262_same_value(&big(12), &big(-12)));
    assert!(e262_same_value_non_number(&Value::Null, &Value::Null));
    assert!(e262_same_value_non_number(&Value::Boolean(true), &Value::Boolean(true)));
    assert!(!e262_same_value(&Value::Null, &Value::Undefined));
    assert!(!e262_is_strictly_equal(&n(1.0), &Value::String("1".into())));
}

#[test]
fn type_tags() {
    assert_eq!(e262_type(&Value::Null), Type::Null);
    assert_eq!(e262_type(&Value::Undefined), Type::Undefined);
    assert_eq!(e262_type(&n(1.0)), Type::Number);
    assert_eq!(e262_type(&Value::Boolean(true)), Type::Boolean);
    assert_eq!(e262_type(&Value::String("".into())), Type::String);
    assert_eq!(e262_type(&Value::Symbol(SymbolRep::anon())), Type::Symbol);
}

#[test]
fn object_coercible_and_keys() {
    assert!(matches!(e262_require_object_coercible(Value::Null), Err(CoreError::TypeError(_))));
    assert!(matches!(
        e262_require_object_coercible(Value::Undefined),
        Err(CoreError::TypeError(_))
    ));
    assert_eq!(e262_require_object_coercible(n(2.0)).unwrap(), n(2.0));
    assert!(e262_is_property_key(&Value::String("a".into())));
    assert!(e262_is_property_key(&Value::Symbol(SymbolRep::anon())));
    assert!(!e262_is_property_key(&n(1.0)));
}

#[test]
fn integral_numbers() {
    assert!(e262_is_integral_number(&n(3.0)));
    assert!(e262_is_integral_number(&n(-0.0)));
    assert!(e262_is_integral_number(&n(1e300)));
    assert!(!e262_is_integral_number(&n(3.5)));
    assert!(!e262_is_integral_number(&n(0.25)));
    assert!(!e262_is_integral_number(&n(f64::NAN)));
    assert!(!e262_is_integral_number(&n(f64::INFINITY)));
    assert!(!e262_is_integral_number(&Value::String("3".into())));
}
