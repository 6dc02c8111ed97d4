//! The internal methods of objects, as a trait whose defaults are the
//! ordinary behaviour.

use vstd::prelude::*;

use crate::errors::CoreResult;
use crate::heap::{Heap, ObjectRep};
use crate::objects::{PropertyKey, SlotValue};
use crate::property::{Descriptor, Property};

verus! {

/// The internal methods of an object. Each default method is the ordinary
/// behaviour, on the object's storage in the heap. An exotic kind of object
/// implements this trait and overrides the methods that it changes, keeping
/// the defaults for the others. Whatever a method does, the heap stays well
/// formed and keeps its objects.
pub trait Object {
    /// Reads an internal slot.
    fn get_slot(&self, heap: &Heap, o: ObjectRep, key: String) -> (r: Option<SlotValue>)
        requires
            heap.wf(),
            heap.contains(o),
    {
        heap.get_slot(o, key)
    }

    /// Stores an internal slot.
    fn set_slot(&self, heap: &mut Heap, o: ObjectRep, key: String, value: SlotValue) -> (r: bool)
        requires
            old(heap).wf(),
            old(heap).contains(o),
        ensures
            final(heap).wf(),
            final(heap).objects_view().len() == old(heap).objects_view().len(),
            final(heap).annex_b_view() == old(heap).annex_b_view(),
    {
        heap.set_slot(o, key, value)
    }

    /// `[[GetPrototypeOf]]`.
    fn get_prototype_of(&self, heap: &Heap, o: ObjectRep) -> (r: CoreResult<Option<ObjectRep>>)
        requires
            heap.wf(),
            heap.contains(o),
        ensures
            r matches Ok(Some(p)) ==> heap.contains(p),
    {
        heap.get_prototype_of(o)
    }

    /// `[[SetPrototypeOf]]`.
    fn set_prototype_of(&self, heap: &mut Heap, o: ObjectRep, proto: Option<ObjectRep>) -> (r:
        bool)
        requires
            old(heap).wf(),
            old(heap).contains(o),
            proto matches Some(p) ==> old(heap).contains(p),
        ensures
            final(heap).wf(),
            final(heap).objects_view().len() == old(heap).objects_view().len(),
            final(heap).annex_b_view() == old(heap).annex_b_view(),
    {
        heap.set_prototype_of(o, proto)
    }

    /// `[[IsExtensible]]`.
    fn is_extensible(&self, heap: &Heap, o: ObjectRep) -> (r: CoreResult<bool>)
        requires
            heap.wf(),
            heap.contains(o),
    {
        heap.is_extensible(o)
    }

    /// `[[PreventExtensions]]`.
    fn prevent_extensions(&self, heap: &mut Heap, o: ObjectRep) -> (r: CoreResult<bool>)
        requires
            old(heap).wf(),
            old(heap).contains(o),
        ensures
            final(heap).wf(),
            final(heap).objects_view().len() == old(heap).objects_view().len(),
            final(heap).annex_b_view() == old(heap).annex_b_view(),
    {
        heap.prevent_extensions(o)
    }

    /// `[[GetOwnProperty]]`.
    fn get_own_property(&self, heap: &Heap, o: ObjectRep, key: &PropertyKey) -> (r: CoreResult<
        Option<Property>,
    >)
        requires
            heap.wf(),
            heap.contains(o),
    {
        heap.get_own_property(o, key)
    }

    /// `[[DefineOwnProperty]]`.
    fn define_own_property(
        &self,
        heap: &mut Heap,
        o: ObjectRep,
        key: PropertyKey,
        desc: Descriptor,
    ) -> (r: CoreResult<bool>)
        requires
            old(heap).wf(),
            old(heap).contains(o),
        ensures
            final(heap).wf(),
            final(heap).objects_view().len() == old(heap).objects_view().len(),
            final(heap).annex_b_view() == old(heap).annex_b_view(),
    {
        heap.define_own_property(o, key, desc)
    }

    /// `[[HasProperty]]`.
    fn has_property(&self, heap: &Heap, o: ObjectRep, key: &PropertyKey) -> (r: CoreResult<bool>)
        requires
            heap.wf(),
            heap.contains(o),
    {
        heap.has_property(o, key)
    }

    /// `[[Delete]]`.
    fn delete(&self, heap: &mut Heap, o: ObjectRep, key: &PropertyKey) -> (r: CoreResult<bool>)
        requires
            old(heap).wf(),
            old(heap).contains(o),
        ensures
            final(heap).wf(),
            final(heap).objects_view().len() == old(heap).objects_view().len(),
            final(heap).annex_b_view() == old(heap).annex_b_view(),
    {
        heap.delete(o, key)
    }
}

/// The ordinary object: every internal method is the default one.
pub struct OrdinaryObject;

impl Object for OrdinaryObject {
}

} // verus!
