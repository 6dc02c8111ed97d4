use std::rc::Rc;

use es_core::{Object, OrdinaryObject};

use es_core::{
    p262_get_slot, p262_has_slot, BaseObject, Completion, CoreError, CoreResult, Descriptor,
    Heap, Number, Property, PropertyKey, SlotValue, SymbolRep, Value,
};

fn key(s: &str) -> PropertyKey {
    PropertyKey::String(s.to_string())
}

fn num(x: f64) -> Rc<Value> {
    Rc::new(Value::Number(Number::from_bits(x.to_bits())))
}

fn data(value: Rc<Value>, writable: bool, enumerable: bool, configurable: bool) -> Descriptor {
    Descriptor {
        value: Some(value),
        writable: Some(writable),
        get: None,
        set: None,
        enumerable: Some(enumerable),
        configurable: Some(configurable),
    }
}

fn value_only(value: Rc<Value>) -> Descriptor {
    Descriptor {
        value: Some(value),
        ..Descriptor::default()
    }
}

#[test]
fn delete_absent_configurable_and_locked() {
    let mut heap = Heap::new(false);
    let o = heap.create(None);
    assert_eq!(heap.delete(o, &key("missing")).unwrap(), true);
    assert_eq!(heap.get_own_property(o, &key("missing")).unwrap(), None);

    assert!(heap.define_own_property(o, key("c"), data(num(1.0), true, true, true)).unwrap());
    assert_eq!(heap.delete(o, &key("c")).unwrap(), true);
    assert_eq!(heap.get_own_property(o, &key("c")).unwrap(), None);

    assert!(heap.define_own_property(o, key("n"), data(num(2.0), true, true, false)).unwrap());
    assert_eq!(heap.delete(o, &key("n")).unwrap(), false);
    assert_eq!(
        heap.get_own_property(o, &key("n")).unwrap(),
        Some(Property::Data {
            value: num(2.0),
            writable: true,
            enumerable: true,
            configurable: false,
        })
    );
}

#[test]
fn define_on_new_key_uses_defaults() {
    let mut heap = Heap::new(false);
    let o = heap.create(None);
    assert!(heap.define_own_property(o, key("a"), value_only(num(5.0))).unwrap());
    assert_eq!(
        heap.get_own_property(o, &key("a")).unwrap(),
        Some(Property::Data {
            value: num(5.0),
            writable: false,
            enumerable: false,
            configurable: false,
        })
    );
    assert!(heap.define_own_property(o, key("g"), Descriptor::default()).unwrap());
    assert_eq!(
        heap.get_own_property(o, &key("g")).unwrap(),
        Some(Property::Data {
            value: Rc::new(Value::Undefined),
            writable: false,
            enumerable: false,
            configurable: false,
        })
    );
    let getter = Descriptor {
        get: Some(Rc::new(Value::Null)),
        enumerable: Some(true),
        ..Descriptor::default()
    };
    assert!(heap.define_own_property(o, key("acc"), getter).unwrap());
    assert_eq!(
        heap.get_own_property(o, &key("acc")).unwrap(),
        Some(Property::Accessor {
            get: Some(Rc::new(Value::Null)),
            set: None,
            enumerable: true,
            configurable: false,
        })
    );
}

#[test]
fn define_on_non_extensible_fails() {
    let mut heap = Heap::new(false);
    let o = heap.create(None);
    assert!(heap.define_own_property(o, key("old"), data(num(1.0), true, true, true)).unwrap());
    assert_eq!(heap.prevent_extensions(o).unwrap(), true);
    assert_eq!(heap.is_extensible(o).unwrap(), false);
    assert_eq!(heap.define_own_property(o, key("new"), value_only(num(1.0))).unwrap(), false);
    assert_eq!(heap.get_own_property(o, &key("new")).unwrap(), None);
    assert!(heap.define_own_property(o, key("old"), value_only(num(3.0))).unwrap());
}

#[test]
fn defining_the_stored_descriptor_again_changes_nothing() {
    let mut heap = Heap::new(false);
    let o = heap.create(None);
    assert!(heap.define_own_property(o, key("p"), data(num(1.0), false, true, false)).unwrap());
    let stored = heap.get_own_property(o, &key("p")).unwrap().unwrap();
    let again: Descriptor = stored.clone().into();
    assert!(heap.define_own_property(o, key("p"), again).unwrap());
    assert_eq!(heap.get_own_property(o, &key("p")).unwrap(), Some(stored));
}

#[test]
fn non_configurable_lock() {
    let mut heap = Heap::new(false);
    let o = heap.create(None);
    assert!(heap.define_own_property(o, key("x"), data(num(1.0), false, false, false)).unwrap());
    let before = heap.get_own_property(o, &key("x")).unwrap();
    assert_eq!(heap.define_own_property(o, key("x"), value_only(num(2.0))).unwrap(), false);
    assert_eq!(heap.get_own_property(o, &key("x")).unwrap(), before);
    assert_eq!(heap.define_own_property(o, key("x"), value_only(num(1.0))).unwrap(), true);
    assert_eq!(heap.get_own_property(o, &key("x")).unwrap(), before);
}

#[test]
fn locked_property_rejects_each_change() {
    let mut heap = Heap::new(false);
    let o = heap.create(None);
    assert!(heap.define_own_property(o, key("x"), data(num(1.0), false, false, false)).unwrap());
    let make_configurable = Descriptor { configurable: Some(true), ..Descriptor::default() };
    assert!(!heap.define_own_property(o, key("x"), make_configurable).unwrap());
    let make_enumerable = Descriptor { enumerable: Some(true), ..Descriptor::default() };
    assert!(!heap.define_own_property(o, key("x"), make_enumerable).unwrap());
    let same_enumerable = Descriptor { enumerable: Some(false), ..Descriptor::default() };
    assert!(heap.define_own_property(o, key("x"), same_enumerable).unwrap());
    let make_writable = Descriptor { writable: Some(true), ..Descriptor::default() };
    assert!(!heap.define_own_property(o, key("x"), make_writable).unwrap());
    let to_accessor = Descriptor { get: Some(Rc::new(Value::Null)), ..Descriptor::default() };
    assert!(!heap.define_own_property(o, key("x"), to_accessor).unwrap());
    assert!(heap.define_own_property(o, key("x"), Descriptor::default()).unwrap());
    let nan = heap.create(None);
    assert!(heap.define_own_property(nan, key("v"), data(num(f64::NAN), false, false, false)).unwrap());
    assert!(heap.define_own_property(nan, key("v"), value_only(num(f64::NAN))).unwrap());
    assert!(heap.define_own_property(nan, key("w"), data(num(0.0), false, false, false)).unwrap());
    assert!(!heap.define_own_property(nan, key("w"), value_only(num(-0.0))).unwrap());
}

#[test]
fn writable_locked_property_takes_new_values() {
    let mut heap = Heap::new(false);
    let o = heap.create(None);
    assert!(heap.define_own_property(o, key("x"), data(num(1.0), true, false, false)).unwrap());
    assert!(heap.define_own_property(o, key("x"), value_only(num(9.0))).unwrap());
    assert_eq!(
        heap.get_own_property(o, &key("x")).unwrap(),
        Some(Property::Data {
            value: num(9.0),
            writable: true,
            enumerable: false,
            configurable: false,
        })
    );
}

#[test]
fn configurable_property_changes_shape() {
    let mut heap = Heap::new(false);
    let o = heap.create(None);
    assert!(heap.define_own_property(o, key("x"), data(num(1.0), true, true, true)).unwrap());
    let to_accessor = Descriptor { set: Some(Rc::new(Value::Null)), ..Descriptor::default() };
    assert!(heap.define_own_property(o, key("x"), to_accessor).unwrap());
    assert_eq!(
        heap.get_own_property(o, &key("x")).unwrap(),
        Some(Property::Accessor {
            get: None,
            set: Some(Rc::new(Value::Null)),
            enumerable: true,
            configurable: true,
        })
    );
    let generic = Descriptor { enumerable: Some(false), ..Descriptor::default() };
    assert!(heap.define_own_property(o, key("x"), generic).unwrap());
    assert_eq!(
        heap.get_own_property(o, &key("x")).unwrap(),
        Some(Property::Accessor {
            get: None,
            set: Some(Rc::new(Value::Null)),
            enumerable: false,
            configurable: true,
        })
    );
    assert!(heap.define_own_property(o, key("x"), value_only(num(4.0))).unwrap());
    assert_eq!(
        heap.get_own_property(o, &key("x")).unwrap(),
        Some(Property::Data {
            value: num(4.0),
            writable: false,
            enumerable: false,
            configurable: true,
        })
    );
}

#[test]
fn symbol_keys_go_by_identity() {
    let mut heap = Heap::new(false);
    let o = heap.create(None);
    let s = SymbolRep::named("k".to_string());
    let other = SymbolRep::named("k".to_string());
    assert!(heap
        .define_own_property(o, PropertyKey::Symbol(s.clone()), value_only(num(1.0)))
        .unwrap());
    assert!(heap.get_own_property(o, &PropertyKey::Symbol(s)).unwrap().is_some());
    assert!(heap.get_own_property(o, &PropertyKey::Symbol(other)).unwrap().is_none());
    assert!(heap.get_own_property(o, &key("k")).unwrap().is_none());
}

#[test]
fn prototype_self_link_is_refused() {
    let mut heap = Heap::new(false);
    let a = heap.create(None);
    assert_eq!(heap.set_prototype_of(a, Some(a)), false);
    assert_eq!(heap.get_prototype_of(a).unwrap(), None);
    assert_eq!(heap.set_prototype_of(a, None), true);
    let p = heap.create(None);
    assert!(heap.set_prototype_of(a, Some(p)));
    assert_eq!(heap.get_prototype_of(a).unwrap(), Some(p));
    assert_eq!(heap.set_prototype_of(a, Some(a)), false);
    assert_eq!(heap.get_prototype_of(a).unwrap(), Some(p));
    assert_eq!(heap.set_prototype_of(a, Some(p)), true);
}

#[test]
fn prototype_cycles_are_refused() {
    let mut heap = Heap::new(false);
    let a = heap.create(None);
    let b = heap.create(Some(a));
    let c = heap.create(Some(b));
    assert_eq!(heap.set_prototype_of(a, Some(c)), false);
    assert_eq!(heap.get_prototype_of(a).unwrap(), None);
    let d = heap.create(None);
    assert!(heap.set_prototype_of(a, Some(d)));
    assert_eq!(heap.get_prototype_of(a).unwrap(), Some(d));
    heap.prevent_extensions(c).unwrap();
    assert_eq!(heap.set_prototype_of(c, Some(d)), false);
    assert_eq!(heap.set_prototype_of(c, Some(b)), true);
    assert_eq!(heap.get_prototype_of(c).unwrap(), Some(b));
}

#[test]
fn has_property_walks_the_chain() {
    let mut heap = Heap::new(false);
    let root = heap.create(None);
    let mid = heap.create(Some(root));
    let leaf = heap.create(Some(mid));
    assert!(heap.define_own_property(root, key("r"), value_only(num(1.0))).unwrap());
    assert!(heap.define_own_property(leaf, key("l"), value_only(num(1.0))).unwrap());
    assert!(heap.has_property(leaf, &key("r")).unwrap());
    assert!(heap.has_property(leaf, &key("l")).unwrap());
    assert!(!heap.has_property(mid, &key("l")).unwrap());
    assert!(!heap.has_property(leaf, &key("none")).unwrap());
    assert!(heap.get_own_property(leaf, &key("r")).unwrap().is_none());
}

#[test]
fn slots_are_stored_and_replaced() {
    let mut heap = Heap::new(false);
    let o = heap.create(None);
    assert!(!p262_has_slot(&heap, o, "s".to_string()));
    assert!(heap.set_slot(o, "s".to_string(), SlotValue::Boolean(false)));
    assert!(p262_has_slot(&heap, o, "s".to_string()));
    assert!(heap.set_slot(o, "s".to_string(), SlotValue::Value(Rc::new(Value::Null))));
    match p262_get_slot(&heap, o, "s".to_string()) {
        Some(SlotValue::Value(v)) => assert_eq!(*v, Value::Null),
        _ => panic!("the slot holds the last value stored"),
    }
    assert!(p262_get_slot(&heap, o, "t".to_string()).is_none());
}

#[test]
fn base_objects_on_their_own() {
    let mut obj = BaseObject::new(None);
    assert_eq!(obj.get_prototype_of().unwrap(), None);
    assert!(obj.is_extensible().unwrap());
    assert!(obj.define_own_property(key("a"), value_only(num(1.0))).unwrap());
    assert!(obj.get_own_property(&key("a")).unwrap().is_some());
    assert!(!obj.delete(&key("a")).unwrap());
    assert!(obj.set_slot("x".to_string(), SlotValue::Boolean(true)));
    assert!(obj.get_slot("x".to_string()).is_some());
    assert!(obj.prevent_extensions().unwrap());
    assert!(!obj.is_extensible().unwrap());
    let other = BaseObject::new(None);
    assert_ne!(obj.id(), other.id());
}

#[test]
fn completions_from_results() {
    let ok: CoreResult<u32> = Ok(3);
    assert!(matches!(Completion::from(ok), Completion::Normal(3)));
    let err: CoreResult<u32> = Err(CoreError::RangeError("r".to_string()));
    assert!(matches!(Completion::from(err), Completion::Throw(CoreError::RangeError(_))));
}

#[test]
fn adopted_objects_keep_their_state() {
    let mut heap = Heap::new(false);
    let proto = heap.create(None);
    let mut obj = BaseObject::new(Some(proto));
    assert!(obj.define_own_property(key("own"), value_only(num(1.0))).unwrap());
    let o = es_core::ObjectRep::new(&mut heap, obj);
    assert_ne!(o, proto);
    assert_eq!(heap.get_prototype_of(o).unwrap(), Some(proto));
    assert!(heap.get_own_property(o, &key("own")).unwrap().is_some());
    assert!(heap.has(o));
}

#[test]
fn ordinary_objects_through_the_trait() {
    let ordinary = OrdinaryObject;
    let mut heap = Heap::new(false);
    let p = heap.create(None);
    let o = heap.create(None);
    assert!(ordinary.set_prototype_of(&mut heap, o, Some(p)));
    assert_eq!(ordinary.get_prototype_of(&heap, o).unwrap(), Some(p));
    assert!(!ordinary.set_prototype_of(&mut heap, p, Some(o)));
    assert!(ordinary.define_own_property(&mut heap, p, key("k"), value_only(num(1.0))).unwrap());
    assert!(ordinary.has_property(&heap, o, &key("k")).unwrap());
    assert!(ordinary.get_own_property(&heap, o, &key("k")).unwrap().is_none());
    assert!(!ordinary.delete(&mut heap, p, &key("k")).unwrap());
    assert!(ordinary.set_slot(&mut heap, o, "s".to_string(), SlotValue::Boolean(true)));
    assert!(ordinary.get_slot(&heap, o, "s".to_string()).is_some());
    assert!(ordinary.prevent_extensions(&mut heap, o).unwrap());
    assert!(!ordinary.is_extensible(&heap, o).unwrap());
}
