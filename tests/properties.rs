use std::rc::Rc;

use es_core::property::{
    e262_complete_property_descriptor, e262_is_accessor_descriptor, e262_is_compatible_property_descriptor,
    e262_is_data_descriptor, e262_is_generic_descriptor, e262_validate_and_apply_property_descriptor,
};
use es_core::{Descriptor, Property, Value};

fn undefined() -> Rc<Value> {
    Rc::new(Value::Undefined)
}

#[test]
fn descriptor_shapes() {
    let empty = Descriptor::default();
    assert!(empty.is_empty() && empty.is_generic());
    assert!(!empty.is_data() && !empty.is_accessor());
    let data = Descriptor { writable: Some(true), ..Descriptor::default() };
    assert!(data.is_data() && !data.is_generic() && !data.is_empty());
    let acc = Descriptor { set: Some(undefined()), ..Descriptor::default() };
    assert!(acc.is_accessor() && !acc.is_data());
    let generic = Descriptor { configurable: Some(true), ..Descriptor::default() };
    assert!(generic.is_generic() && !generic.is_empty());
    assert!(e262_is_accessor_descriptor(&Some(acc.clone())));
    assert!(!e262_is_accessor_descriptor(&None));
    assert!(e262_is_data_descriptor(&Some(data.clone())));
    assert!(!e262_is_data_descriptor(&Some(acc)));
    assert!(e262_is_generic_descriptor(&Some(generic)));
    assert!(!e262_is_generic_descriptor(&None));
}

#[test]
fn completion_of_descriptors() {
    let d = Descriptor { enumerable: Some(true), ..Descriptor::default() };
    assert_eq!(
        e262_complete_property_descriptor(d),
        Property::Data { value: undefined(), writable: false, enumerable: true, configurable: false }
    );
    let a = Descriptor { get: Some(Rc::new(Value::Null)), configurable: Some(true), ..Descriptor::default() };
    let p: Property = a.into();
    assert_eq!(
        p,
        Property::Accessor { get: Some(Rc::new(Value::Null)), set: None, enumerable: false, configurable: true }
    );
    assert!(p.is_accessor() && !p.is_data() && p.is_configurable() && !p.is_enumerable());
    let back: Descriptor = p.into();
    assert_eq!(back.configurable, Some(true));
    assert_eq!(back.enumerable, Some(false));
    assert!(back.value.is_none() && back.writable.is_none());
}

#[test]
fn validation_without_an_object() {
    let d = Descriptor { value: Some(undefined()), ..Descriptor::default() };
    assert!(e262_is_compatible_property_descriptor(true, &d, None));
    assert!(!e262_is_compatible_property_descriptor(false, &d, None));
    let locked = Property::Data { value: Rc::new(Value::Null), writable: false, enumerable: false, configurable: false };
    assert!(!e262_is_compatible_property_descriptor(true, &d, Some(locked.clone())));
    let (ok, stored) = e262_validate_and_apply_property_descriptor(true, Descriptor::default(), Some(locked));
    assert!(ok);
    assert!(stored.is_none());
    let (ok, stored) = e262_validate_and_apply_property_descriptor(false, d, None);
    assert!(!ok);
    assert!(stored.is_none());
}

#[test]
fn accessor_lock_compares_getters_by_same_value() {
    let locked = Property::Accessor { get: None, set: Some(Rc::new(Value::Null)), enumerable: true, configurable: false };
    let same_get = Descriptor { get: Some(undefined()), ..Descriptor::default() };
    assert!(e262_is_compatible_property_descriptor(true, &same_get, Some(locked.clone())));
    let other_get = Descriptor { get: Some(Rc::new(Value::Null)), ..Descriptor::default() };
    assert!(!e262_is_compatible_property_descriptor(true, &other_get, Some(locked.clone())));
    let same_set = Descriptor { set: Some(Rc::new(Value::Null)), ..Descriptor::default() };
    assert!(e262_is_compatible_property_descriptor(true, &same_set, Some(locked.clone())));
    let other_set = Descriptor { set: Some(undefined()), ..Descriptor::default() };
    assert!(!e262_is_compatible_property_descriptor(true, &other_set, Some(locked)));
}
