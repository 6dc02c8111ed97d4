//! Ordinary objects: property keys, the storage of an object, and the
//! ordinary internal methods that touch one object only.

use ordermap::OrderMap;
use std::rc::Rc;
use vstd::prelude::*;

use crate::errors::CoreResult;
use crate::id::MagicId;
use crate::property::{
    accepted, applied, described, e262_validate_and_apply_property_descriptor, flag_or,
    locked_compatible, materialized, stored, Descriptor, Property,
};
use crate::operations::{lemma_same_value_reflexive, same_value_spec};
use crate::heap::ObjectRep;
use crate::symbol::SymbolRep;
use crate::value::Value;

verus! {

/// A property key.
#[derive(Debug)]
pub enum PropertyKey {
    /// A string key.
    String(String),
    /// A symbol key.
    Symbol(SymbolRep),
}

/// What identifies a property key: the text of a string key, the tag of a
/// symbol key.
pub enum KeyView {
    /// A string key.
    String(Seq<char>),
    /// A symbol key.
    Symbol(u64),
}

impl View for PropertyKey {
    type V = KeyView;

    open spec fn view(&self) -> KeyView {
        match self {
            PropertyKey::String(s) => KeyView::String(s@),
            PropertyKey::Symbol(s) => KeyView::Symbol(s.tag()),
        }
    }
}

impl Clone for PropertyKey {
    fn clone(&self) -> (r: Self)
        ensures
            r == *self,
    {
        match self {
            PropertyKey::String(s) => PropertyKey::String(s.clone()),
            PropertyKey::Symbol(s) => PropertyKey::Symbol(s.clone()),
        }
    }
}

impl PartialEq for PropertyKey {
    fn eq(&self, other: &PropertyKey) -> (r: bool)
        ensures
            r == (self@ == other@),
    {
        match (self, other) {
            (PropertyKey::String(a), PropertyKey::String(b)) => a.eq(b),
            (PropertyKey::Symbol(a), PropertyKey::Symbol(b)) => a.id() == b.id(),
            _ => false,
        }
    }
}

impl vstd::std_specs::cmp::PartialEqSpecImpl for PropertyKey {
    open spec fn obeys_eq_spec() -> bool {
        true
    }

    open spec fn eq_spec(&self, other: &PropertyKey) -> bool {
        self@ == other@
    }
}

impl Eq for PropertyKey {
}

/// The key of a property map: the identity of a property key, as plain
/// values whose derived equality and hash agree with it.
#[derive(Debug, PartialEq, Eq, Hash)]
pub enum PropertyKeyId {
    /// A string key.
    String(String),
    /// A symbol key, by its tag.
    Symbol(MagicId),
}

impl View for PropertyKeyId {
    type V = KeyView;

    open spec fn view(&self) -> KeyView {
        match self {
            PropertyKeyId::String(s) => KeyView::String(s@),
            PropertyKeyId::Symbol(id) => KeyView::Symbol(id.0),
        }
    }
}

impl PropertyKey {
    /// The identity of the key.
    pub fn key_id(&self) -> (r: PropertyKeyId)
        ensures
            r@ == self@,
    {
        match self {
            PropertyKey::String(s) => PropertyKeyId::String(s.clone()),
            PropertyKey::Symbol(s) => PropertyKeyId::Symbol(s.id()),
        }
    }
}

/// Declares `ordermap::OrderMap`, the insertion-ordered map that holds an
/// object's own properties; its contents are known through the names and
/// wrappers below.
#[verifier::external_type_specification]
#[verifier::external_body]
#[verifier::reject_recursive_types(K)]
#[verifier::reject_recursive_types(V)]
#[verifier::reject_recursive_types(S)]
pub struct ExOrderMap<K, V, S>(OrderMap<K, V, S>);

/// The properties that a property map holds, by key.
pub uninterp spec fn property_map(m: OrderMap<PropertyKeyId, Property>) -> Map<KeyView, Property>;

/// The keys of a property map, in their order of insertion.
pub uninterp spec fn key_order(m: OrderMap<PropertyKeyId, Property>) -> Seq<KeyView>;

/// Relies on `OrderMap::new`: an empty map.
#[verifier::external_body]
fn props_new() -> (r: OrderMap<PropertyKeyId, Property>)
    ensures
        property_map(r).dom() == Set::<KeyView>::empty(),
        key_order(r).len() == 0,
{
    OrderMap::new()
}

/// Relies on `OrderMap::get`: the value stored under an equal key, if any.
#[verifier::external_body]
fn props_get<'a>(m: &'a OrderMap<PropertyKeyId, Property>, k: &PropertyKeyId) -> (r: Option<
    &'a Property,
>)
    ensures
        r is Some == property_map(*m).contains_key(k@),
        r matches Some(p) ==> *p == property_map(*m)[k@],
{
    m.get(k)
}

/// Relies on `OrderMap::insert`: the value is stored under the key; a key
/// that was there keeps its place in the order, a new one goes last.
#[verifier::external_body]
fn props_insert(m: &mut OrderMap<PropertyKeyId, Property>, k: PropertyKeyId, p: Property)
    ensures
        property_map(*final(m)) == property_map(*old(m)).insert(k@, p),
        key_order(*final(m)) == if property_map(*old(m)).contains_key(k@) {
            key_order(*old(m))
        } else {
            key_order(*old(m)).push(k@)
        },
{
    m.insert(k, p);
}

/// Relies on `OrderMap::remove`, which shifts the entries that follow: the
/// key and its value leave, and the other keys keep their order.
#[verifier::external_body]
fn props_remove(m: &mut OrderMap<PropertyKeyId, Property>, k: &PropertyKeyId)
    ensures
        property_map(*final(m)) == property_map(*old(m)).remove(k@),
        key_order(*final(m)) == key_order(*old(m)).filter(|x: KeyView| x != k@),
{
    m.remove(k);
}

/// A value held in an internal slot.
#[derive(Debug)]
pub enum SlotValue {
    /// A flag, such as the marker of the legacy `document.all` object.
    Boolean(bool),
    /// A language value.
    Value(Rc<Value>),
}

impl Clone for SlotValue {
    fn clone(&self) -> (r: Self)
        ensures
            r == *self,
    {
        match self {
            SlotValue::Boolean(b) => SlotValue::Boolean(*b),
            SlotValue::Value(v) => SlotValue::Value(crate::symbol::share(v)),
        }
    }
}

/// The storage of an ordinary object.
#[derive(Debug)]
pub struct BaseObject {
    id: MagicId,
    props: OrderMap<PropertyKeyId, Property>,
    slots: Vec<(String, SlotValue)>,
    prototype: Option<ObjectRep>,
    extensible: bool,
}

/// A map as an optional lookup.
pub open spec fn lookup<K, V>(m: Map<K, V>, k: K) -> Option<V> {
    if m.contains_key(k) {
        Some(m[k])
    } else {
        None
    }
}

/// Two objects differ at most in their prototype.
pub open spec fn same_but_proto(before: BaseObject, after: BaseObject) -> bool {
    &&& after.props_view() == before.props_view()
    &&& after.order_view() == before.order_view()
    &&& after.slots_view() == before.slots_view()
    &&& after.extensible_view() == before.extensible_view()
    &&& after.id_view() == before.id_view()
    &&& after.wf() == before.wf()
}

/// Two objects differ at most in their own properties.
pub open spec fn same_but_props(before: BaseObject, after: BaseObject) -> bool {
    &&& after.slots_view() == before.slots_view()
    &&& after.proto_view() == before.proto_view()
    &&& after.extensible_view() == before.extensible_view()
    &&& after.id_view() == before.id_view()
    &&& after.wf() == before.wf()
}

/// What OrdinaryDefineOwnProperty does: with `before` the object, it
/// answers `r` and leaves `after`. The answer is whether the descriptor is
/// accepted; where a property is to be stored, it is, a new key going last
/// in the order and a key that was there keeping its place.
pub open spec fn define_post(
    before: BaseObject,
    key: KeyView,
    desc: Descriptor,
    r: CoreResult<bool>,
    after: BaseObject,
) -> bool {
    let current = lookup(before.props_view(), key);
    &&& r == Ok::<bool, crate::errors::CoreError>(accepted(before.extensible_view(), desc, current))
    &&& match stored(before.extensible_view(), desc, current) {
        Some(p) => {
            &&& after.props_view() == before.props_view().insert(key, p)
            &&& after.order_view() == if before.props_view().contains_key(key) {
                before.order_view()
            } else {
                before.order_view().push(key)
            }
        },
        None => {
            &&& after.props_view() == before.props_view()
            &&& after.order_view() == before.order_view()
        },
    }
    &&& same_but_props(before, after)
}

/// What OrdinaryDelete does: with `before` the object, it answers `r` and
/// leaves `after`. An absent key succeeds and changes nothing; a
/// configurable property is removed, the other keys keeping their order;
/// a non-configurable one stays, and the call fails.
pub open spec fn delete_post(before: BaseObject, key: KeyView, r: CoreResult<bool>, after: BaseObject) -> bool {
    let removable = before.props_view().contains_key(key) && before.props_view()[key].configurable_spec();
    &&& r == Ok::<bool, crate::errors::CoreError>(
        !before.props_view().contains_key(key) || before.props_view()[key].configurable_spec(),
    )
    &&& if removable {
        &&& after.props_view() == before.props_view().remove(key)
        &&& after.order_view() == before.order_view().filter(|x: KeyView| x != key)
    } else {
        &&& after.props_view() == before.props_view()
        &&& after.order_view() == before.order_view()
    }
    &&& same_but_props(before, after)
}

impl BaseObject {
    /// The own properties, by key.
    pub closed spec fn props_view(&self) -> Map<KeyView, Property> {
        property_map(self.props)
    }

    /// The keys of the own properties, in their order of insertion.
    pub closed spec fn order_view(&self) -> Seq<KeyView> {
        key_order(self.props)
    }

    /// The internal slots, by name.
    pub closed spec fn slots_view(&self) -> Map<Seq<char>, SlotValue> {
        Map::new(
            |k: Seq<char>| exists|i: int| 0 <= i < self.slots@.len() && self.slots@[i].0@ == k,
            |k: Seq<char>|
                self.slots@[choose|i: int| 0 <= i < self.slots@.len() && self.slots@[i].0@ == k].1,
        )
    }

    /// The prototype.
    pub closed spec fn proto_view(&self) -> Option<ObjectRep> {
        self.prototype
    }

    /// The extensibility flag.
    pub closed spec fn extensible_view(&self) -> bool {
        self.extensible
    }

    /// The identity tag.
    pub closed spec fn id_view(&self) -> u64 {
        self.id.0
    }

    /// Each slot name appears once.
    pub closed spec fn wf(&self) -> bool {
        forall|i: int, j: int|
            0 <= i < j < self.slots@.len() ==> self.slots@[i].0@ != self.slots@[j].0@
    }

    /// A new, extensible object with no property and no slot.
    pub fn new(prototype: Option<ObjectRep>) -> (r: Self)
        ensures
            r.wf(),
            r.props_view().dom() == Set::<KeyView>::empty(),
            r.order_view().len() == 0,
            r.slots_view().dom() == Set::<Seq<char>>::empty(),
            r.proto_view() == prototype,
            r.extensible_view(),
    {
        let r = BaseObject {
            id: MagicId::new(),
            props: props_new(),
            slots: Vec::new(),
            prototype,
            extensible: true,
        };
        assert(r.slots_view().dom() =~= Set::<Seq<char>>::empty());
        r
    }

    /// The identity tag.
    pub fn id(&self) -> (r: MagicId)
        ensures
            r.0 == self.id_view(),
    {
        self.id
    }

    /// The place of a slot, if there is one of that name.
    fn find_slot(&self, key: &String) -> (r: Option<usize>)
        requires
            self.wf(),
        ensures
            r is Some == self.slots_view().contains_key(key@),
            r matches Some(i) ==> i < self.slots@.len() && self.slots@[i as int].0@ == key@
                && self.slots_view()[key@] == self.slots@[i as int].1,
    {
        let n = self.slots.len();
        let mut i: usize = 0;
        while i < n
            invariant
                n == self.slots@.len(),
                self.wf(),
                0 <= i <= n,
                forall|j: int| 0 <= j < i ==> self.slots@[j].0@ != key@,
            decreases n - i,
        {
            if self.slots[i].0.eq(key) {
                proof {
                    let k = choose|k: int| 0 <= k < self.slots@.len() && self.slots@[k].0@ == key@;
                    if k != i as int {
                        if k < i as int {
                        } else {
                            assert(self.slots@[i as int].0@ != self.slots@[k].0@);
                        }
                    }
                }
                return Some(i);
            }
            i = i + 1;
        }
        None
    }

    /// The slot of the given name, if there is one.
    pub fn get_slot(&self, key: String) -> (r: Option<SlotValue>)
        requires
            self.wf(),
        ensures
            r == lookup(self.slots_view(), key@),
    {
        match self.find_slot(&key) {
            Some(i) => Some(self.slots[i].1.clone()),
            None => None,
        }
    }

    /// Stores a slot; this always succeeds.
    pub fn set_slot(&mut self, key: String, value: SlotValue) -> (r: bool)
        requires
            old(self).wf(),
        ensures
            r,
            final(self).wf(),
            final(self).slots_view() == old(self).slots_view().insert(key@, value),
            final(self).props_view() == old(self).props_view(),
            final(self).order_view() == old(self).order_view(),
            final(self).proto_view() == old(self).proto_view(),
            final(self).extensible_view() == old(self).extensible_view(),
            final(self).id_view() == old(self).id_view(),
    {
        let ghost before = self.slots_view();
        let len = self.slots.len();
        match self.find_slot(&key) {
            Some(i) => {
                let ghost k = key@;
                self.slots.set(i, (key, value));
                proof {
                    assert forall|a: int, b: int|
                        0 <= a < b < self.slots@.len() implies self.slots@[a].0@
                        != self.slots@[b].0@ by {
                        if a != i as int && b != i as int {
                            assert(old(self).slots@[a].0@ != old(self).slots@[b].0@);
                        } else if a == i as int {
                            assert(old(self).slots@[a].0@ != old(self).slots@[b].0@);
                        } else {
                            assert(old(self).slots@[a].0@ != old(self).slots@[b].0@);
                        }
                    }
                    assert forall|d: Seq<char>| #[trigger] self.slots_view().contains_key(d)
                        == before.insert(k, value).contains_key(d) by {
                        if self.slots_view().contains_key(d) {
                            let x = choose|x: int| 0 <= x < len && self.slots@[x].0@ == d;
                            if x != i as int {
                                assert(old(self).slots@[x].0@ == d);
                            }
                        }
                        if before.contains_key(d) {
                            let x = choose|x: int| 0 <= x < len && old(self).slots@[x].0@ == d;
                            assert(self.slots@[x].0@ == d);
                        }
                        if d == k {
                            assert(self.slots@[i as int].0@ == d);
                        }
                    }
                    assert forall|d: Seq<char>| #[trigger] self.slots_view().contains_key(d)
                        implies self.slots_view()[d] == before.insert(k, value)[d] by {
                        let x = choose|x: int| 0 <= x < len && self.slots@[x].0@ == d;
                        if d == k {
                            if x != i as int {
                                assert(self.slots@[x].0@ != self.slots@[i as int].0@);
                            }
                        } else {
                            assert(x != i as int);
                            assert(old(self).slots@[x].0@ == d);
                            let y = choose|y: int| 0 <= y < len && old(self).slots@[y].0@ == d;
                            if y != x {
                                assert(old(self).slots@[x].0@ != old(self).slots@[y].0@);
                            }
                        }
                    }
                    assert(self.slots_view() =~= before.insert(k, value));
                }
            },
            None => {
                let ghost k = key@;
                self.slots.push((key, value));
                proof {
                    assert forall|d: Seq<char>| #[trigger] self.slots_view().contains_key(d)
                        == before.insert(k, value).contains_key(d) by {
                        if self.slots_view().contains_key(d) {
                            let x = choose|x: int| 0 <= x < len + 1 && self.slots@[x].0@ == d;
                            if x < len {
                                assert(old(self).slots@[x].0@ == d);
                            }
                        }
                        if before.contains_key(d) {
                            let x = choose|x: int| 0 <= x < len && old(self).slots@[x].0@ == d;
                            assert(self.slots@[x].0@ == d);
                        }
                        if d == k {
                            assert(self.slots@[len as int].0@ == d);
                        }
                    }
                    assert forall|d: Seq<char>| #[trigger] self.slots_view().contains_key(d)
                        implies self.slots_view()[d] == before.insert(k, value)[d] by {
                        let x = choose|x: int| 0 <= x < len + 1 && self.slots@[x].0@ == d;
                        if d == k {
                            if x != len as int {
                                assert(old(self).slots@[x].0@ == d);
                            }
                        } else {
                            assert(x != len as int);
                            assert(old(self).slots@[x].0@ == d);
                            let y = choose|y: int| 0 <= y < len && old(self).slots@[y].0@ == d;
                            if y != x {
                                assert(old(self).slots@[x].0@ != old(self).slots@[y].0@);
                            }
                        }
                    }
                    assert(self.slots_view() =~= before.insert(k, value));
                }
            },
        }
        true
    }

    /// The prototype link.
    pub(crate) fn proto(&self) -> (r: Option<ObjectRep>)
        ensures
            r == self.proto_view(),
    {
        self.prototype
    }

    /// The extensibility flag.
    pub(crate) fn extensible_flag(&self) -> (r: bool)
        ensures
            r == self.extensible_view(),
    {
        self.extensible
    }

    /// Stores the prototype link.
    pub(crate) fn set_proto(&mut self, prototype: Option<ObjectRep>)
        ensures
            final(self).proto_view() == prototype,
            same_but_proto(*old(self), *final(self)),
    {
        let ghost slots_before = self.slots;
        self.prototype = prototype;
        assert(self.slots == slots_before);
    }

    /// OrdinaryGetPrototypeOf: the prototype.
    pub fn get_prototype_of(&self) -> (r: CoreResult<Option<ObjectRep>>)
        ensures
            r == Ok::<Option<ObjectRep>, crate::errors::CoreError>(self.proto_view()),
    {
        Ok(self.prototype)
    }

    /// OrdinaryIsExtensible: the extensibility flag.
    pub fn is_extensible(&self) -> (r: CoreResult<bool>)
        ensures
            r == Ok::<bool, crate::errors::CoreError>(self.extensible_view()),
    {
        Ok(self.extensible)
    }

    /// OrdinaryPreventExtensions: the object stops being extensible, for
    /// good; this always succeeds.
    pub fn prevent_extensions(&mut self) -> (r: CoreResult<bool>)
        ensures
            r == Ok::<bool, crate::errors::CoreError>(true),
            !final(self).extensible_view(),
            final(self).props_view() == old(self).props_view(),
            final(self).order_view() == old(self).order_view(),
            final(self).slots_view() == old(self).slots_view(),
            final(self).proto_view() == old(self).proto_view(),
            final(self).id_view() == old(self).id_view(),
            final(self).wf() == old(self).wf(),
    {
        let ghost slots_before = self.slots;
        self.extensible = false;
        assert(self.slots == slots_before);
        Ok(true)
    }

    /// OrdinaryGetOwnProperty: the own property under the key, with no
    /// look at the prototype.
    pub fn get_own_property(&self, key: &PropertyKey) -> (r: CoreResult<Option<Property>>)
        ensures
            r == Ok::<Option<Property>, crate::errors::CoreError>(
                lookup(self.props_view(), key@),
            ),
    {
        let id = key.key_id();
        match props_get(&self.props, &id) {
            Some(p) => Ok(Some(p.clone())),
            None => Ok(None),
        }
    }

    /// OrdinaryDefineOwnProperty: reconciles the descriptor with the
    /// current property under the key, and stores the result where it is
    /// accepted. A new key goes last in the order; a key that was there
    /// keeps its place.
    pub fn define_own_property(&mut self, key: PropertyKey, desc: Descriptor) -> (r: CoreResult<
        bool,
    >)
        ensures
            define_post(*old(self), key@, desc, r, *final(self)),
    {
        let current = match self.get_own_property(&key) {
            Ok(c) => c,
            Err(e) => return Err(e),
        };
        let extensible = self.extensible;
        let (ok, prop) = e262_validate_and_apply_property_descriptor(extensible, desc, current);
        let ghost slots_before = self.slots;
        match prop {
            Some(p) => props_insert(&mut self.props, key.key_id(), p),
            None => {},
        }
        assert(self.slots == slots_before);
        Ok(ok)
    }

    /// OrdinaryDelete: removes the own property under the key where it is
    /// configurable. An absent key succeeds and changes nothing; a
    /// non-configurable property stays, and the call fails.
    pub fn delete(&mut self, key: &PropertyKey) -> (r: CoreResult<bool>)
        ensures
            delete_post(*old(self), key@, r, *final(self)),
    {
        let prop = self.get_own_property(key);
        match prop {
            Err(err) => Err(err),
            Ok(None) => Ok(true),
            Ok(Some(prop)) => {
                if prop.is_configurable() {
                    let id = key.key_id();
                    let ghost slots_before = self.slots;
                    props_remove(&mut self.props, &id);
                    assert(self.slots == slots_before);
                    Ok(true)
                } else {
                    Ok(false)
                }
            },
        }
    }
}

/// Deleting a key that is absent, or whose property is configurable,
/// succeeds, and no own property is left under the key; deleting a key
/// whose property is not configurable fails, and the property stays as it
/// was.
pub proof fn lemma_delete_outcome(
    before: BaseObject,
    key: KeyView,
    r: CoreResult<bool>,
    after: BaseObject,
)
    requires
        delete_post(before, key, r, after),
    ensures
        !before.props_view().contains_key(key) || before.props_view()[key].configurable_spec()
            ==> r == Ok::<bool, crate::errors::CoreError>(true) && lookup(after.props_view(), key)
            is None,
        before.props_view().contains_key(key) && !before.props_view()[key].configurable_spec()
            ==> r == Ok::<bool, crate::errors::CoreError>(false) && lookup(after.props_view(), key)
            == lookup(before.props_view(), key),
{
}

/// Defining a key that an object does not have fails on a non-extensible
/// object, which stays as it was. On an extensible object it succeeds, and
/// the key then holds the property that the descriptor makes, whose absent
/// attributes are false.
pub proof fn lemma_define_new_key(
    before: BaseObject,
    key: KeyView,
    desc: Descriptor,
    r: CoreResult<bool>,
    after: BaseObject,
)
    requires
        define_post(before, key, desc, r, after),
        !before.props_view().contains_key(key),
    ensures
        !before.extensible_view() ==> r == Ok::<bool, crate::errors::CoreError>(false)
            && after.props_view() == before.props_view(),
        before.extensible_view() ==> {
            &&& r == Ok::<bool, crate::errors::CoreError>(true)
            &&& lookup(after.props_view(), key) == Some(materialized(desc))
            &&& after.props_view()[key].enumerable_spec() == flag_or(desc.enumerable, false)
            &&& after.props_view()[key].configurable_spec() == flag_or(desc.configurable, false)
            &&& (after.props_view()[key] matches Property::Data { writable, .. } ==> writable
                == flag_or(desc.writable, false))
        },
{
}

/// Defining again the descriptor of the property that a key holds succeeds
/// and changes nothing.
pub proof fn lemma_define_same_again(
    before: BaseObject,
    key: KeyView,
    r: CoreResult<bool>,
    after: BaseObject,
)
    requires
        before.props_view().contains_key(key),
        define_post(before, key, described(before.props_view()[key]), r, after),
    ensures
        r == Ok::<bool, crate::errors::CoreError>(true),
        after.props_view() == before.props_view(),
        after.order_view() == before.order_view(),
{
    let p = before.props_view()[key];
    let desc = described(p);
    if p is Data {
        lemma_same_value_reflexive(p->Data_value);
    } else {
        if p->Accessor_get is Some {
            lemma_same_value_reflexive(p->Accessor_get->Some_0);
        }
        if p->Accessor_set is Some {
            lemma_same_value_reflexive(p->Accessor_set->Some_0);
        }
    }
    assert(p.configurable_spec() || locked_compatible(desc, p));
    assert(applied(desc, p) == p);
    assert(before.props_view().insert(key, p) =~= before.props_view());
}

/// On a data property that is neither configurable nor writable, a
/// descriptor that gives only a value is accepted exactly when the value is
/// the same value (SameValue) as the stored one; a rejected one changes
/// nothing, and so does the stored value given again.
pub proof fn lemma_locked_value(
    before: BaseObject,
    key: KeyView,
    v: Rc<Value>,
    r: CoreResult<bool>,
    after: BaseObject,
)
    requires
        before.props_view().contains_key(key),
        before.props_view()[key] matches Property::Data { writable, configurable, .. }
            && !writable && !configurable,
        define_post(
            before,
            key,
            Descriptor {
                value: Some(v),
                writable: None,
                get: None,
                set: None,
                enumerable: None,
                configurable: None,
            },
            r,
            after,
        ),
    ensures
        r == Ok::<bool, crate::errors::CoreError>(
            same_value_spec(*v, *before.props_view()[key]->Data_value),
        ),
        !same_value_spec(*v, *before.props_view()[key]->Data_value) ==> after.props_view()
            == before.props_view(),
        *v == *before.props_view()[key]->Data_value ==> after.props_view() == before.props_view(),
{
    let p = before.props_view()[key];
    let desc = Descriptor {
        value: Some(v),
        writable: None,
        get: None,
        set: None,
        enumerable: None,
        configurable: None,
    };
    if v == p->Data_value {
        assert(applied(desc, p) == p);
        assert(before.props_view().insert(key, p) =~= before.props_view());
    }
}

} // verus!
