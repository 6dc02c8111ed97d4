//! The legacy behaviours of Annex B: the `document.all` object.

use vstd::prelude::*;

use crate::heap::{p262_get_slot, Heap, ObjectRep};
use crate::objects::{lookup, SlotValue};

verus! {

/// The name of the slot that marks the legacy `document.all` object.
pub open spec fn html_dda_slot() -> Seq<char> {
    "IsHTMLDDA"@
}

/// The slot name that marks the legacy `document.all` object.
pub fn html_dda_name() -> (r: String)
    ensures
        r@ == html_dda_slot(),
{
    "IsHTMLDDA".to_string()
}

/// The object is the legacy `document.all` object: the legacy behaviours
/// are on and its marker slot holds `true`.
pub fn p262_is_document_dot_all(heap: &Heap, obj: ObjectRep) -> (r: bool)
    requires
        heap.wf(),
        heap.contains(obj),
    ensures
        r == (heap.annex_b_view() && lookup(heap.object(obj).slots_view(), html_dda_slot())
            == Some(SlotValue::Boolean(true))),
{
    if heap.annex_b() {
        match p262_get_slot(heap, obj, html_dda_name()) {
            Some(SlotValue::Boolean(is_dda)) => is_dda,
            _ => false,
        }
    } else {
        false
    }
}

} // verus!
