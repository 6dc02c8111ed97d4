//! Properties, descriptors, and the reconciliation of a descriptor with the
//! property it would change.

use std::rc::Rc;
use vstd::prelude::*;

use crate::operations::{e262_same_value, same_value_spec};
use crate::symbol::share;
use crate::value::{values_equal, Value};

verus! {

/// A complete, stored property.
#[derive(Debug)]
pub enum Property {
    /// A data property.
    Data {
        /// The value that a read of the property gives.
        value: Rc<Value>,
        /// The value can be assigned.
        writable: bool,
        /// The property shows in a `for`-`in` enumeration.
        enumerable: bool,
        /// The property can be deleted, and its attributes changed.
        configurable: bool,
    },
    /// An accessor property.
    Accessor {
        /// The getter; `None` stands for undefined.
        get: Option<Rc<Value>>,
        /// The setter; `None` stands for undefined.
        set: Option<Rc<Value>>,
        /// The property shows in a `for`-`in` enumeration.
        enumerable: bool,
        /// The property can be deleted, and its attributes changed.
        configurable: bool,
    },
}

impl Property {
    /// The `enumerable` attribute.
    pub open spec fn enumerable_spec(&self) -> bool {
        match self {
            Property::Data { enumerable, .. } => *enumerable,
            Property::Accessor { enumerable, .. } => *enumerable,
        }
    }

    /// The `configurable` attribute.
    pub open spec fn configurable_spec(&self) -> bool {
        match self {
            Property::Data { configurable, .. } => *configurable,
            Property::Accessor { configurable, .. } => *configurable,
        }
    }

    /// Is this an accessor property?
    pub fn is_accessor(&self) -> (r: bool)
        ensures
            r == (self is Accessor),
    {
        match self {
            Property::Accessor { .. } => true,
            Property::Data { .. } => false,
        }
    }

    /// Is this a data property?
    pub fn is_data(&self) -> (r: bool)
        ensures
            r == (self is Data),
    {
        match self {
            Property::Data { .. } => true,
            Property::Accessor { .. } => false,
        }
    }

    /// Is the property enumerable?
    pub fn is_enumerable(&self) -> (r: bool)
        ensures
            r == self.enumerable_spec(),
    {
        match self {
            Property::Accessor { enumerable, .. } => *enumerable,
            Property::Data { enumerable, .. } => *enumerable,
        }
    }

    /// Is the property configurable?
    pub fn is_configurable(&self) -> (r: bool)
        ensures
            r == self.configurable_spec(),
    {
        match self {
            Property::Accessor { configurable, .. } => *configurable,
            Property::Data { configurable, .. } => *configurable,
        }
    }
}

/// Optional values that are both absent, or both present and equal by
/// `==` on values.
pub open spec fn options_equal(a: Option<Rc<Value>>, b: Option<Rc<Value>>) -> bool {
    match (a, b) {
        (None, None) => true,
        (Some(x), Some(y)) => values_equal(*x, *y),
        _ => false,
    }
}

/// What `==` on properties means: the same kind, equal attributes, and
/// values equal by `==` on values.
pub open spec fn properties_equal(a: Property, b: Property) -> bool {
    match (a, b) {
        (
            Property::Data { value: v1, writable: w1, enumerable: e1, configurable: c1 },
            Property::Data { value: v2, writable: w2, enumerable: e2, configurable: c2 },
        ) => values_equal(*v1, *v2) && w1 == w2 && e1 == e2 && c1 == c2,
        (
            Property::Accessor { get: g1, set: s1, enumerable: e1, configurable: c1 },
            Property::Accessor { get: g2, set: s2, enumerable: e2, configurable: c2 },
        ) => options_equal(g1, g2) && options_equal(s1, s2) && e1 == e2 && c1 == c2,
        _ => false,
    }
}

fn value_eq(a: &Value, b: &Value) -> (r: bool)
    ensures
        r == values_equal(*a, *b),
{
    a.eq(b)
}

fn option_eq(a: &Option<Rc<Value>>, b: &Option<Rc<Value>>) -> (r: bool)
    ensures
        r == options_equal(*a, *b),
{
    match (a, b) {
        (None, None) => true,
        (Some(x), Some(y)) => value_eq(x, y),
        _ => false,
    }
}

impl PartialEq for Property {
    fn eq(&self, other: &Property) -> (r: bool)
        ensures
            r == properties_equal(*self, *other),
    {
        match (self, other) {
            (
                Property::Data { value: v1, writable: w1, enumerable: e1, configurable: c1 },
                Property::Data { value: v2, writable: w2, enumerable: e2, configurable: c2 },
            ) => value_eq(v1, v2) && *w1 == *w2 && *e1 == *e2 && *c1 == *c2,
            (
                Property::Accessor { get: g1, set: s1, enumerable: e1, configurable: c1 },
                Property::Accessor { get: g2, set: s2, enumerable: e2, configurable: c2 },
            ) => option_eq(g1, g2) && option_eq(s1, s2) && *e1 == *e2 && *c1 == *c2,
            _ => false,
        }
    }
}

impl vstd::std_specs::cmp::PartialEqSpecImpl for Property {
    open spec fn obeys_eq_spec() -> bool {
        true
    }

    open spec fn eq_spec(&self, other: &Property) -> bool {
        properties_equal(*self, *other)
    }
}

/// A copy of an optional shared value, pointing to the same value.
fn share_option(v: &Option<Rc<Value>>) -> (r: Option<Rc<Value>>)
    ensures
        r == *v,
{
    match v {
        Some(v) => Some(share(v)),
        None => None,
    }
}

impl Clone for Property {
    fn clone(&self) -> (r: Self)
        ensures
            r == *self,
    {
        match self {
            Property::Accessor { get, set, enumerable, configurable } => Property::Accessor {
                get: share_option(get),
                set: share_option(set),
                enumerable: *enumerable,
                configurable: *configurable,
            },
            Property::Data { value, writable, enumerable, configurable } => Property::Data {
                value: share(value),
                writable: *writable,
                enumerable: *enumerable,
                configurable: *configurable,
            },
        }
    }
}

/// A property descriptor: a request to create or change a property, with
/// every field optional.
#[derive(Debug)]
pub struct Descriptor {
    /// The value that a read of the property gives.
    pub value: Option<Rc<Value>>,
    /// The value can be assigned.
    pub writable: Option<bool>,
    /// The getter.
    pub get: Option<Rc<Value>>,
    /// The setter.
    pub set: Option<Rc<Value>>,
    /// The property shows in a `for`-`in` enumeration.
    pub enumerable: Option<bool>,
    /// The property can be deleted, and its attributes changed.
    pub configurable: Option<bool>,
}

impl Descriptor {
    /// Accessor-shaped: a getter or a setter is given.
    pub open spec fn accessor_spec(&self) -> bool {
        self.get is Some || self.set is Some
    }

    /// Data-shaped: a value or a writable flag is given.
    pub open spec fn data_spec(&self) -> bool {
        self.value is Some || self.writable is Some
    }

    /// Generic: neither accessor- nor data-shaped.
    pub open spec fn generic_spec(&self) -> bool {
        !self.accessor_spec() && !self.data_spec()
    }

    /// Empty: no field is given.
    pub open spec fn empty_spec(&self) -> bool {
        self.generic_spec() && self.enumerable is None && self.configurable is None
    }

    /// Is the descriptor accessor-shaped?
    pub fn is_accessor(&self) -> (r: bool)
        ensures
            r == self.accessor_spec(),
    {
        self.get.is_some() || self.set.is_some()
    }

    /// Is the descriptor data-shaped?
    pub fn is_data(&self) -> (r: bool)
        ensures
            r == self.data_spec(),
    {
        self.value.is_some() || self.writable.is_some()
    }

    /// Is the descriptor empty?
    pub fn is_empty(&self) -> (r: bool)
        ensures
            r == self.empty_spec(),
    {
        self.value.is_none() && self.writable.is_none() && self.get.is_none()
            && self.set.is_none() && self.enumerable.is_none() && self.configurable.is_none()
    }

    /// Is the descriptor generic?
    pub fn is_generic(&self) -> (r: bool)
        ensures
            r == self.generic_spec(),
    {
        !self.is_accessor() && !self.is_data()
    }
}

impl Clone for Descriptor {
    fn clone(&self) -> (r: Self)
        ensures
            r == *self,
    {
        Descriptor {
            value: share_option(&self.value),
            writable: self.writable,
            get: share_option(&self.get),
            set: share_option(&self.set),
            enumerable: self.enumerable,
            configurable: self.configurable,
        }
    }
}

impl Default for Descriptor {
    fn default() -> (r: Self)
        ensures
            r.empty_spec(),
    {
        Descriptor {
            value: None,
            writable: None,
            get: None,
            set: None,
            enumerable: None,
            configurable: None,
        }
    }
}

/// An optional flag, or a default where it is absent.
pub open spec fn flag_or(flag: Option<bool>, default: bool) -> bool {
    match flag {
        Some(b) => b,
        None => default,
    }
}

/// An optional value, or undefined where it is absent.
pub open spec fn value_or_undefined(v: Option<Rc<Value>>) -> Value {
    match v {
        Some(v) => *v,
        None => Value::Undefined,
    }
}

/// An optional value, or a default where it is absent.
pub open spec fn option_or(v: Option<Rc<Value>>, default: Option<Rc<Value>>) -> Option<Rc<Value>> {
    match v {
        Some(v) => Some(v),
        None => default,
    }
}

/// CompletePropertyDescriptor: the property that a descriptor makes where
/// none was. It is an accessor property when the descriptor is
/// accessor-shaped and a data property otherwise; absent attributes are
/// false and an absent value is undefined.
pub open spec fn materialized(desc: Descriptor) -> Property {
    if desc.accessor_spec() {
        Property::Accessor {
            get: desc.get,
            set: desc.set,
            enumerable: flag_or(desc.enumerable, false),
            configurable: flag_or(desc.configurable, false),
        }
    } else {
        Property::Data {
            value: Rc::new(value_or_undefined(desc.value)),
            writable: flag_or(desc.writable, false),
            enumerable: flag_or(desc.enumerable, false),
            configurable: flag_or(desc.configurable, false),
        }
    }
}

/// The property that results from applying a descriptor to the current
/// property. The shape is the descriptor's where it has one and the current
/// property's otherwise. A field that the descriptor leaves out keeps its
/// current value; on a change of shape, an absent value is undefined, an
/// absent writable flag is false, and an absent getter or setter is
/// undefined.
pub open spec fn applied(desc: Descriptor, current: Property) -> Property {
    match current {
        Property::Accessor { get, set, enumerable, configurable } => if desc.data_spec() {
            Property::Data {
                value: Rc::new(value_or_undefined(desc.value)),
                writable: flag_or(desc.writable, false),
                enumerable: flag_or(desc.enumerable, enumerable),
                configurable: flag_or(desc.configurable, configurable),
            }
        } else {
            Property::Accessor {
                get: option_or(desc.get, get),
                set: option_or(desc.set, set),
                enumerable: flag_or(desc.enumerable, enumerable),
                configurable: flag_or(desc.configurable, configurable),
            }
        },
        Property::Data { value, writable, enumerable, configurable } => if desc.accessor_spec() {
            Property::Accessor {
                get: desc.get,
                set: desc.set,
                enumerable: flag_or(desc.enumerable, enumerable),
                configurable: flag_or(desc.configurable, configurable),
            }
        } else {
            Property::Data {
                value: match desc.value {
                    Some(v) => v,
                    None => value,
                },
                writable: flag_or(desc.writable, writable),
                enumerable: flag_or(desc.enumerable, enumerable),
                configurable: flag_or(desc.configurable, configurable),
            }
        },
    }
}

/// The checks that a non-configurable property puts on a descriptor: it
/// may not be made configurable, nor change its enumerability, nor change
/// between data and accessor; an accessor keeps its getter and setter (by
/// SameValue, an absent one being undefined); a non-writable data property
/// stays non-writable and keeps its value (by SameValue).
pub open spec fn locked_compatible(desc: Descriptor, current: Property) -> bool {
    &&& desc.configurable != Some(true)
    &&& (desc.enumerable matches Some(e) ==> e == current.enumerable_spec())
    &&& (!desc.generic_spec() ==> desc.accessor_spec() == (current is Accessor))
    &&& match current {
        Property::Accessor { get, set, .. } => {
            &&& (desc.get matches Some(g) ==> same_value_spec(*g, value_or_undefined(get)))
            &&& (desc.set matches Some(s) ==> same_value_spec(*s, value_or_undefined(set)))
        },
        Property::Data { value, writable, .. } => !writable ==> {
            &&& desc.writable != Some(true)
            &&& (desc.value matches Some(v) ==> same_value_spec(*v, *value))
        },
    }
}

/// ValidateAndApplyPropertyDescriptor: whether a descriptor is accepted,
/// given the object's extensibility and the current property.
pub open spec fn accepted(extensible: bool, desc: Descriptor, current: Option<Property>) -> bool {
    match current {
        None => extensible,
        Some(cur) => desc.empty_spec() || cur.configurable_spec() || locked_compatible(desc, cur),
    }
}

/// ValidateAndApplyPropertyDescriptor: the property to store when the
/// descriptor is accepted, or `None` where nothing is written (a rejected
/// or an empty descriptor on an existing property).
pub open spec fn stored(extensible: bool, desc: Descriptor, current: Option<Property>) -> Option<
    Property,
> {
    if !accepted(extensible, desc, current) {
        None
    } else {
        match current {
            None => Some(materialized(desc)),
            Some(cur) => if desc.empty_spec() {
                None
            } else {
                Some(applied(desc, cur))
            },
        }
    }
}

/// CompletePropertyDescriptor.
pub fn e262_complete_property_descriptor(desc: Descriptor) -> (r: Property)
    ensures
        r == materialized(desc),
{
    if desc.is_accessor() {
        Property::Accessor {
            get: desc.get,
            set: desc.set,
            enumerable: unwrap_flag(desc.enumerable, false),
            configurable: unwrap_flag(desc.configurable, false),
        }
    } else {
        Property::Data {
            value: unwrap_value(desc.value),
            writable: unwrap_flag(desc.writable, false),
            enumerable: unwrap_flag(desc.enumerable, false),
            configurable: unwrap_flag(desc.configurable, false),
        }
    }
}

/// An optional flag, or a default.
fn unwrap_flag(flag: Option<bool>, default: bool) -> (r: bool)
    ensures
        r == flag_or(flag, default),
{
    match flag {
        Some(b) => b,
        None => default,
    }
}

/// An optional value, or undefined.
fn unwrap_value(v: Option<Rc<Value>>) -> (r: Rc<Value>)
    ensures
        *r == value_or_undefined(v),
{
    match v {
        Some(v) => v,
        None => Rc::new(Value::Undefined),
    }
}

/// IsAccessorDescriptor: a descriptor is given and is accessor-shaped.
pub fn e262_is_accessor_descriptor(desc: &Option<Descriptor>) -> (r: bool)
    ensures
        r == (desc matches Some(d) && d.accessor_spec()),
{
    match desc {
        None => false,
        Some(desc) => desc.is_accessor(),
    }
}

/// IsDataDescriptor: a descriptor is given and is data-shaped.
pub fn e262_is_data_descriptor(desc: &Option<Descriptor>) -> (r: bool)
    ensures
        r == (desc matches Some(d) && d.data_spec()),
{
    match desc {
        None => false,
        Some(desc) => desc.is_data(),
    }
}

/// IsGenericDescriptor: a descriptor is given and is generic.
pub fn e262_is_generic_descriptor(desc: &Option<Descriptor>) -> (r: bool)
    ensures
        r == (desc matches Some(d) && d.generic_spec()),
{
    match desc {
        None => false,
        Some(desc) => desc.is_generic(),
    }
}

/// The checks of a non-configurable property on a descriptor.
fn check_locked(desc: &Descriptor, current: &Property) -> (r: bool)
    ensures
        r == locked_compatible(*desc, *current),
{
    if desc.configurable == Some(true) {
        return false;
    }
    match desc.enumerable {
        Some(e) => if e != current.is_enumerable() {
            return false;
        },
        None => {},
    }
    if !desc.is_generic() && desc.is_accessor() != current.is_accessor() {
        return false;
    }
    let undefined = Value::Undefined;
    match current {
        Property::Accessor { get: current_get, set: current_set, .. } => {
            match &desc.get {
                Some(g) => {
                    let ok = match current_get {
                        Some(c) => e262_same_value(g, c),
                        None => e262_same_value(g, &undefined),
                    };
                    if !ok {
                        return false;
                    }
                },
                None => {},
            }
            match &desc.set {
                Some(s) => {
                    let ok = match current_set {
                        Some(c) => e262_same_value(s, c),
                        None => e262_same_value(s, &undefined),
                    };
                    if !ok {
                        return false;
                    }
                },
                None => {},
            }
            true
        },
        Property::Data { value: current_value, writable: current_writable, .. } => {
            if !*current_writable {
                if desc.writable == Some(true) {
                    return false;
                }
                match &desc.value {
                    Some(v) => if !e262_same_value(v, current_value) {
                        return false;
                    },
                    None => {},
                }
            }
            true
        },
    }
}

/// Builds the property that applying an accepted, non-empty descriptor to
/// the current property gives.
fn apply(desc: Descriptor, current: &Property) -> (r: Property)
    ensures
        r == applied(desc, *current),
{
    let is_data = desc.is_data();
    let is_accessor = desc.is_accessor();
    match current {
        Property::Accessor { get, set, enumerable, configurable } => if is_data {
            Property::Data {
                value: unwrap_value(desc.value),
                writable: unwrap_flag(desc.writable, false),
                enumerable: unwrap_flag(desc.enumerable, *enumerable),
                configurable: unwrap_flag(desc.configurable, *configurable),
            }
        } else {
            Property::Accessor {
                get: match desc.get {
                    Some(g) => Some(g),
                    None => share_option(get),
                },
                set: match desc.set {
                    Some(s) => Some(s),
                    None => share_option(set),
                },
                enumerable: unwrap_flag(desc.enumerable, *enumerable),
                configurable: unwrap_flag(desc.configurable, *configurable),
            }
        },
        Property::Data { value, writable, enumerable, configurable } => if is_accessor {
            Property::Accessor {
                get: desc.get,
                set: desc.set,
                enumerable: unwrap_flag(desc.enumerable, *enumerable),
                configurable: unwrap_flag(desc.configurable, *configurable),
            }
        } else {
            Property::Data {
                value: match desc.value {
                    Some(v) => v,
                    None => share(value),
                },
                writable: unwrap_flag(desc.writable, *writable),
                enumerable: unwrap_flag(desc.enumerable, *enumerable),
                configurable: unwrap_flag(desc.configurable, *configurable),
            }
        },
    }
}

/// ValidateAndApplyPropertyDescriptor, without the write: whether the
/// descriptor is accepted, and the property to store, if any.
pub fn e262_validate_and_apply_property_descriptor(
    extensible: bool,
    desc: Descriptor,
    current: Option<Property>,
) -> (r: (bool, Option<Property>))
    ensures
        r.0 == accepted(extensible, desc, current),
        r.1 == stored(extensible, desc, current),
{
    match current {
        None => {
            if !extensible {
                return (false, None);
            }
            (true, Some(e262_complete_property_descriptor(desc)))
        },
        Some(current) => {
            if desc.is_empty() {
                return (true, None);
            }
            if !current.is_configurable() && !check_locked(&desc, &current) {
                return (false, None);
            }
            (true, Some(apply(desc, &current)))
        },
    }
}

/// IsCompatiblePropertyDescriptor: would the descriptor be accepted?
pub fn e262_is_compatible_property_descriptor(
    extensible: bool,
    desc: &Descriptor,
    current: Option<Property>,
) -> (r: bool)
    ensures
        r == accepted(extensible, *desc, current),
{
    e262_validate_and_apply_property_descriptor(extensible, desc.clone(), current).0
}

impl From<Descriptor> for Property {
    fn from(desc: Descriptor) -> (r: Self)
        ensures
            r == materialized(desc),
    {
        e262_complete_property_descriptor(desc)
    }
}

impl vstd::std_specs::convert::FromSpecImpl<Descriptor> for Property {
    open spec fn obeys_from_spec() -> bool {
        true
    }

    open spec fn from_spec(desc: Descriptor) -> Self {
        materialized(desc)
    }
}

/// The descriptor that gives every field of a property.
pub open spec fn described(prop: Property) -> Descriptor {
    match prop {
        Property::Accessor { get, set, enumerable, configurable } => Descriptor {
            value: None,
            writable: None,
            get,
            set,
            enumerable: Some(enumerable),
            configurable: Some(configurable),
        },
        Property::Data { value, writable, enumerable, configurable } => Descriptor {
            value: Some(value),
            writable: Some(writable),
            get: None,
            set: None,
            enumerable: Some(enumerable),
            configurable: Some(configurable),
        },
    }
}

impl From<Property> for Descriptor {
    fn from(prop: Property) -> (r: Self)
        ensures
            r == described(prop),
    {
        match prop {
            Property::Accessor { get, set, enumerable, configurable } => Descriptor {
                value: None,
                writable: None,
                get,
                set,
                enumerable: Some(enumerable),
                configurable: Some(configurable),
            },
            Property::Data { value, writable, enumerable, configurable } => Descriptor {
                value: Some(value),
                writable: Some(writable),
                get: None,
                set: None,
                enumerable: Some(enumerable),
                configurable: Some(configurable),
            },
        }
    }
}

impl vstd::std_specs::convert::FromSpecImpl<Property> for Descriptor {
    open spec fn obeys_from_spec() -> bool {
        true
    }

    open spec fn from_spec(prop: Property) -> Self {
        described(prop)
    }
}

} // verus!
