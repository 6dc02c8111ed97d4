use es_core::{
    e262_to_boolean, e262_to_integer_or_infinity, e262_to_length, e262_to_number,
    BigIntRep, CoreError, Heap, IntegerOrInfinity, Number, SlotValue, SymbolRep, Value,
};

fn num(x: f64) -> Number {
    Number::from_bits(x.to_bits())
}

fn length(x: f64) -> u64 {
    e262_to_length(&Value::Number(num(x)), None).unwrap()
}

#[test]
fn to_length_of_numbers() {
    assert_eq!(length(-5.0), 0);
    assert_eq!(length(f64::INFINITY), 9007199254740991);
    assert_eq!(length(3.7), 3);
    assert_eq!(length(f64::NEG_INFINITY), 0);
    assert_eq!(length(f64::NAN), 0);
    assert_eq!(length(-0.0), 0);
    assert_eq!(length(1e100), 9007199254740991);
    assert_eq!(length(42.0), 42);
}

#[test]
fn to_length_of_other_values() {
    assert_eq!(e262_to_length(&Value::Boolean(true), None).unwrap(), 1);
    assert_eq!(e262_to_length(&Value::Null, None).unwrap(), 0);
    assert_eq!(e262_to_length(&Value::Undefined, None).unwrap(), 0);
    let s = Value::String("12.9".to_string());
    assert_eq!(e262_to_length(&s, Some(num(12.9))).unwrap(), 12);
    assert_eq!(e262_to_length(&s, None).unwrap(), 0);
    assert!(matches!(
        e262_to_length(&Value::Symbol(SymbolRep::anon()), None),
        Err(CoreError::TypeError(_))
    ));
}

#[test]
fn to_number_of_each_kind() {
    let bits = |v: &Value, read: Option<Number>| e262_to_number(v, read).unwrap().to_bits();
    assert_eq!(bits(&Value::Number(num(2.5)), None), 2.5f64.to_bits());
    assert_eq!(bits(&Value::Boolean(true), None), 1f64.to_bits());
    assert_eq!(bits(&Value::Boolean(false), None), 0f64.to_bits());
    assert_eq!(bits(&Value::Null, None), 0f64.to_bits());
    assert!(f64::from_bits(bits(&Value::Undefined, None)).is_nan());
    assert_eq!(bits(&Value::String("7".to_string()), Some(num(7.0))), 7f64.to_bits());
    assert!(f64::from_bits(bits(&Value::String("x".to_string()), None)).is_nan());
    assert!(matches!(
        e262_to_number(&Value::BigInt(BigIntRep::new(false, vec![3])), None),
        Err(CoreError::TypeError(_))
    ));
    assert!(matches!(
        e262_to_number(&Value::Symbol(SymbolRep::anon()), None),
        Err(CoreError::TypeError(_))
    ));
}

#[test]
fn to_integer_or_infinity_outcomes() {
    let of = |x: f64| e262_to_integer_or_infinity(&Value::Number(num(x)), None).unwrap();
    assert!(matches!(of(f64::INFINITY), IntegerOrInfinity::PositiveInfinity));
    assert!(matches!(of(f64::NEG_INFINITY), IntegerOrInfinity::NegativeInfinity));
    match of(f64::NAN) {
        IntegerOrInfinity::Integer(n) => assert_eq!(f64::from_bits(n.to_bits()), 0.0),
        _ => panic!("NaN gives an integer"),
    }
    match of(-7.9) {
        IntegerOrInfinity::Integer(n) => assert_eq!(f64::from_bits(n.to_bits()), -7.0),
        _ => panic!("a finite number gives an integer"),
    }
    assert!(matches!(
        e262_to_integer_or_infinity(&Value::Symbol(SymbolRep::anon()), None),
        Err(CoreError::TypeError(_))
    ));
}

#[test]
fn to_boolean_table() {
    let mut heap = Heap::new(false);
    let o = heap.create(None);
    let t = |heap: &Heap, v: Value| e262_to_boolean(heap, &v);
    assert!(!t(&heap, Value::Null));
    assert!(!t(&heap, Value::Undefined));
    assert!(!t(&heap, Value::Boolean(false)));
    assert!(t(&heap, Value::Boolean(true)));
    assert!(!t(&heap, Value::Number(num(0.0))));
    assert!(!t(&heap, Value::Number(num(-0.0))));
    assert!(!t(&heap, Value::Number(num(f64::NAN))));
    assert!(t(&heap, Value::Number(num(-1.5))));
    assert!(t(&heap, Value::Number(num(f64::INFINITY))));
    assert!(!t(&heap, Value::BigInt(BigIntRep::new(false, vec![]))));
    assert!(t(&heap, Value::BigInt(BigIntRep::new(true, vec![2]))));
    assert!(!t(&heap, Value::String(String::new())));
    assert!(t(&heap, Value::String("0".to_string())));
    assert!(t(&heap, Value::Symbol(SymbolRep::anon())));
    assert!(t(&heap, Value::Object(o)));
    heap.set_slot(o, "IsHTMLDDA".to_string(), SlotValue::Boolean(true));
    assert!(t(&heap, Value::Object(o)));
}

#[test]
fn document_all_is_falsy_in_legacy_mode() {
    let mut heap = Heap::new(true);
    let dda = heap.create(None);
    let plain = heap.create(None);
    assert!(heap.set_slot(dda, "IsHTMLDDA".to_string(), SlotValue::Boolean(true)));
    assert!(!e262_to_boolean(&heap, &Value::Object(dda)));
    assert!(e262_to_boolean(&heap, &Value::Object(plain)));
    assert!(es_core::annex_b::p262_is_document_dot_all(&heap, dda));
    assert!(!es_core::annex_b::p262_is_document_dot_all(&heap, plain));
}

#[test]
fn coercion_errors_carry_the_to_number_message() {
    let big = Value::BigInt(BigIntRep::new(false, vec![1]));
    let sym = Value::Symbol(SymbolRep::anon());
    for v in [big, sym] {
        let expected = match e262_to_number(&v, None) {
            Err(CoreError::TypeError(m)) => m,
            _ => panic!("a TypeError"),
        };
        match e262_to_length(&v, None) {
            Err(CoreError::TypeError(m)) => assert_eq!(m, expected),
            _ => panic!("a TypeError"),
        }
        match e262_to_integer_or_infinity(&v, None) {
            Err(CoreError::TypeError(m)) => assert_eq!(m, expected),
            _ => panic!("a TypeError"),
        }
    }
    match e262_to_number(&Value::BigInt(BigIntRep::new(false, vec![1])), None) {
        Err(CoreError::TypeError(m)) => assert_eq!(m, "Cannot convert BigInt value into Number"),
        _ => panic!("a TypeError"),
    }
}

#[test]
fn objects_convert_without_error() {
    let mut heap = Heap::new(false);
    let o = heap.create(None);
    assert!(e262_to_number(&Value::Object(o), None).is_ok());
    assert!(e262_to_length(&Value::Object(o), None).unwrap() <= 9007199254740991);
}

#[test]
fn integer_outcomes_keep_the_sign() {
    match e262_to_integer_or_infinity(&Value::Number(num(-0.5)), None).unwrap() {
        IntegerOrInfinity::Integer(n) => assert_eq!(n.to_bits(), (-0.0f64).to_bits()),
        _ => panic!("an integer"),
    }
    match e262_to_integer_or_infinity(&Value::Number(num(-0.0)), None).unwrap() {
        IntegerOrInfinity::Integer(n) => assert_eq!(n.to_bits(), 0),
        _ => panic!("an integer"),
    }
}
