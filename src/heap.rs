//! The heap of objects and the handles on them, with the internal methods
//! that follow prototype chains.

use vstd::prelude::*;

use crate::errors::CoreResult;
use crate::objects::{
    define_post, delete_post, lookup, same_but_proto, BaseObject, KeyView, PropertyKey, SlotValue,
};
use crate::property::{Descriptor, Property};

verus! {

/// A handle on an object of a [`Heap`]. Two handles are equal when they
/// designate the same object.
#[derive(Clone, Copy, Debug, PartialEq, Eq, Hash, Structural)]
pub struct ObjectRep(usize);

impl ObjectRep {
    /// The place of the object in its heap.
    pub closed spec fn index(&self) -> int {
        self.0 as int
    }

    /// Two handles are equal exactly when they have the same place, and a
    /// place is never negative.
    pub proof fn lemma_index(a: ObjectRep, b: ObjectRep)
        ensures
            (a.index() == b.index()) == (a == b),
            a.index() >= 0,
    {
    }

    /// Adds an object to the heap and hands back its handle.
    pub fn new(heap: &mut Heap, obj: BaseObject) -> (r: ObjectRep)
        requires
            old(heap).wf(),
            obj.wf(),
            obj.proto_view() matches Some(p) ==> old(heap).contains(p),
        ensures
            final(heap).wf(),
            final(heap).annex_b_view() == old(heap).annex_b_view(),
            final(heap).objects_view() == old(heap).objects_view().push(obj),
            final(heap).contains(r),
            final(heap).object(r) == obj,
    {
        heap.adopt(obj)
    }
}

/// What OrdinarySetPrototypeOf does to a heap: with `before` the heap, it
/// answers `r` and leaves `after`. The same prototype again succeeds; any
/// other succeeds when the object is extensible and the new chain does not
/// lead back to it. On success the link is stored; nothing else changes.
pub open spec fn set_prototype_post(
    before: Heap,
    o: ObjectRep,
    proto: Option<ObjectRep>,
    r: bool,
    after: Heap,
) -> bool {
    &&& r == (proto == before.object(o).proto_view() || (before.object(o).extensible_view()
        && !before.reaches(proto, o)))
    &&& after.objects_view() == before.objects_view().update(o.index(), after.object(o))
    &&& after.object(o).proto_view() == if r {
        proto
    } else {
        before.object(o).proto_view()
    }
    &&& same_but_proto(before.object(o), after.object(o))
}

/// The objects of one realm. An [`ObjectRep`] designates one of them.
///
/// Every prototype link points to an object of the heap, and following the
/// links from any object reaches an object without a prototype: prototype
/// chains are finite, because `set_prototype_of` refuses a link that would
/// close a cycle.
pub struct Heap {
    objects: Vec<BaseObject>,
    annex_b: bool,
}

impl Heap {
    /// The objects, each at the place that its handle gives.
    pub closed spec fn objects_view(&self) -> Seq<BaseObject> {
        self.objects@
    }

    /// The legacy (Annex B) behaviours are on.
    pub closed spec fn annex_b_view(&self) -> bool {
        self.annex_b
    }

    /// The handle designates an object of this heap.
    pub open spec fn contains(&self, o: ObjectRep) -> bool {
        0 <= o.index() < self.objects_view().len()
    }

    /// The object that the handle designates.
    pub open spec fn object(&self, o: ObjectRep) -> BaseObject {
        self.objects_view()[o.index()]
    }

    /// One step along a prototype chain.
    pub open spec fn step(&self, x: Option<ObjectRep>) -> Option<ObjectRep> {
        match x {
            Some(c) => if self.contains(c) {
                self.object(c).proto_view()
            } else {
                None
            },
            None => None,
        }
    }

    /// The object `n` steps up the prototype chain of `o` (`o` itself for
    /// `n == 0`), or `None` past its end.
    pub open spec fn ancestor(&self, o: ObjectRep, n: nat) -> Option<ObjectRep>
        decreases n,
    {
        if n == 0 {
            Some(o)
        } else {
            self.step(self.ancestor(o, (n - 1) as nat))
        }
    }

    /// `target` is on the prototype chain that starts at `start`.
    pub open spec fn reaches(&self, start: Option<ObjectRep>, target: ObjectRep) -> bool {
        start matches Some(p) && exists|n: nat| #[trigger] self.ancestor(p, n) == Some(target)
    }

    /// The key is an own property of `o` or of an object on its prototype
    /// chain.
    pub open spec fn has_property_spec(&self, o: ObjectRep, key: KeyView) -> bool {
        exists|n: nat|
            #[trigger] self.ancestor(o, n) matches Some(q) && self.contains(q) && self.object(
                q,
            ).props_view().contains_key(key)
    }

    /// The prototype chain of `o` ends.
    pub open spec fn chain_ends(&self, o: ObjectRep) -> bool {
        exists|n: nat| #[trigger] self.ancestor(o, n) is None
    }

    /// Every object is well formed, every prototype is an object of the heap,
    /// and every prototype chain ends.
    pub open spec fn wf(&self) -> bool {
        &&& forall|o: ObjectRep| #[trigger] self.contains(o) ==> self.object(o).wf()
        &&& forall|o: ObjectRep|
            #[trigger] self.contains(o) ==> (self.object(o).proto_view() matches Some(p)
                ==> self.contains(p))
        &&& forall|o: ObjectRep| #[trigger] self.contains(o) ==> self.chain_ends(o)
    }

    /// Two heaps with the same objects' prototypes have the same chains.
    proof fn lemma_same_links(h1: &Heap, h2: &Heap, o: ObjectRep, n: nat)
        requires
            h1.objects_view().len() == h2.objects_view().len(),
            forall|q: ObjectRep| #[trigger]
                h1.contains(q) ==> h1.object(q).proto_view() == h2.object(q).proto_view(),
        ensures
            h1.ancestor(o, n) == h2.ancestor(o, n),
        decreases n,
    {
        if n > 0 {
            Heap::lemma_same_links(h1, h2, o, (n - 1) as nat);
        }
    }

    /// Past the end of a chain, there is nothing.
    proof fn lemma_none_stays(&self, o: ObjectRep, i: nat, k: nat)
        requires
            self.ancestor(o, i) is None,
            i <= k,
        ensures
            self.ancestor(o, k) is None,
        decreases k,
    {
        if k > i {
            self.lemma_none_stays(o, i, (k - 1) as nat);
        }
    }

    /// A chain from an object of a heap whose prototypes are objects of the
    /// heap stays in the heap.
    proof fn lemma_chain_contained(&self, o: ObjectRep, n: nat)
        requires
            self.contains(o),
            forall|q: ObjectRep|
                #[trigger] self.contains(q) ==> (self.object(q).proto_view() matches Some(p)
                    ==> self.contains(p)),
        ensures
            self.ancestor(o, n) matches Some(q) ==> self.contains(q),
        decreases n,
    {
        if n > 0 {
            self.lemma_chain_contained(o, (n - 1) as nat);
        }
    }

    /// The chain of an object, past its first step, is the chain of its
    /// prototype.
    proof fn lemma_front(&self, o: ObjectRep, p: ObjectRep, k: nat)
        requires
            self.contains(o),
            self.object(o).proto_view() == Some(p),
        ensures
            self.ancestor(o, k + 1) == self.ancestor(p, k),
        decreases k,
    {
        assert(self.ancestor(o, 0) == Some(o));
        assert(self.ancestor(o, k + 1) == self.step(self.ancestor(o, k)));
        if k > 0 {
            self.lemma_front(o, p, (k - 1) as nat);
            assert(self.ancestor(p, k) == self.step(self.ancestor(p, (k - 1) as nat)));
        } else {
            assert(self.ancestor(o, 1) == self.step(Some(o)));
        }
    }

    /// Replacing an object by one with the same prototype keeps the heap
    /// well formed.
    proof fn lemma_replace_keeps_wf(h1: &Heap, h2: &Heap, o: ObjectRep)
        requires
            h1.wf(),
            h1.contains(o),
            h2.objects_view() == h1.objects_view().update(o.index(), h2.object(o)),
            h2.object(o).proto_view() == h1.object(o).proto_view(),
            h2.object(o).wf(),
        ensures
            h2.wf(),
    {
        assert forall|q: ObjectRep| #[trigger] h2.contains(q) implies h2.chain_ends(q) by {
            assert(h1.contains(q));
            assert(h1.chain_ends(q));
            let n = choose|n: nat| #[trigger] h1.ancestor(q, n) is None;
            assert forall|x: ObjectRep| #[trigger]
                h1.contains(x) implies h1.object(x).proto_view() == h2.object(x).proto_view() by {
                if x.index() != o.index() {
                    assert(h2.object(x) == h1.object(x));
                }
            }
            Heap::lemma_same_links(h1, h2, q, n);
        }
        assert forall|q: ObjectRep| #[trigger] h2.contains(q) implies h2.object(q).wf()
            && (h2.object(q).proto_view() matches Some(p) ==> h2.contains(p)) by {
            assert(h1.contains(q));
            if q.index() != o.index() {
                assert(h2.object(q) == h1.object(q));
            }
        }
    }

    /// An empty heap; `annex_b` turns the legacy behaviours on.
    pub fn new(annex_b: bool) -> (r: Heap)
        ensures
            r.wf(),
            r.objects_view().len() == 0,
            r.annex_b_view() == annex_b,
    {
        Heap { objects: Vec::new(), annex_b }
    }

    /// Are the legacy (Annex B) behaviours on?
    pub fn annex_b(&self) -> (r: bool)
        ensures
            r == self.annex_b_view(),
    {
        self.annex_b
    }

    /// The object that a handle designates.
    pub fn get(&self, o: ObjectRep) -> (r: &BaseObject)
        requires
            self.contains(o),
        ensures
            *r == self.object(o),
    {
        &self.objects[o.0]
    }

    /// Is the handle one of this heap's?
    pub fn has(&self, o: ObjectRep) -> (r: bool)
        ensures
            r == self.contains(o),
    {
        o.0 < self.objects.len()
    }

    /// A chain that starts in a heap stays the same when an object is added.
    proof fn lemma_push_agrees(h1: &Heap, h2: &Heap, x: BaseObject, q: ObjectRep, n: nat)
        requires
            h1.wf(),
            h1.contains(q),
            h2.objects_view() == h1.objects_view().push(x),
        ensures
            h2.ancestor(q, n) == h1.ancestor(q, n),
        decreases n,
    {
        if n > 0 {
            Heap::lemma_push_agrees(h1, h2, x, q, (n - 1) as nat);
            h1.lemma_chain_contained(q, (n - 1) as nat);
            if let Some(c) = h1.ancestor(q, (n - 1) as nat) {
                assert(h2.object(c) == h1.object(c));
            }
        }
    }

    /// A chain that does not pass through `a` stays the same when the
    /// object `a` is replaced.
    proof fn lemma_avoid_agrees(h1: &Heap, h2: &Heap, a: ObjectRep, p: ObjectRep, k: nat)
        requires
            h1.contains(a),
            h2.objects_view() == h1.objects_view().update(a.index(), h2.object(a)),
            !h1.reaches(Some(p), a),
        ensures
            h2.ancestor(p, k) == h1.ancestor(p, k),
        decreases k,
    {
        if k > 0 {
            Heap::lemma_avoid_agrees(h1, h2, a, p, (k - 1) as nat);
            if let Some(c) = h1.ancestor(p, (k - 1) as nat) {
                assert(h1.ancestor(p, (k - 1) as nat) != Some(a));
                assert(c.index() != a.index());
                if h1.contains(c) {
                    assert(h2.object(c) == h1.object(c));
                }
            }
        }
    }

    /// Replacing the object `a` by one whose prototype link does not lead
    /// back to `a` leaves every chain finite: the chain of `q`, which ends
    /// in `m` steps before the change, still ends after it.
    proof fn lemma_relink_ends(h1: &Heap, h2: &Heap, a: ObjectRep, q: ObjectRep, m: nat)
        requires
            h1.wf(),
            h1.contains(a),
            h1.contains(q),
            h2.objects_view() == h1.objects_view().update(a.index(), h2.object(a)),
            h2.object(a).proto_view() matches Some(p) ==> h1.contains(p) && !h1.reaches(
                Some(p),
                a,
            ),
            h1.ancestor(q, m) is None,
        ensures
            h2.chain_ends(q),
        decreases m,
    {
        assert(h2.contains(q));
        if q.index() == a.index() {
            assert(q == a);
            match h2.object(a).proto_view() {
                None => {
                    assert(h2.ancestor(a, 0) == Some(a));
                    assert(h2.ancestor(a, 1) == h2.step(h2.ancestor(a, 0)));
                    assert(h2.ancestor(a, 1) is None);
                },
                Some(p) => {
                    assert(h1.chain_ends(p));
                    let n = choose|n: nat| #[trigger] h1.ancestor(p, n) is None;
                    Heap::lemma_avoid_agrees(h1, h2, a, p, n);
                    h2.lemma_front(a, p, n);
                    assert(h2.ancestor(a, n + 1) is None);
                },
            }
        } else {
            assert(h2.object(q) == h1.object(q));
            match h1.object(q).proto_view() {
                None => {
                    assert(h2.ancestor(q, 0) == Some(q));
                    assert(h2.ancestor(q, 1) == h2.step(h2.ancestor(q, 0)));
                    assert(h2.ancestor(q, 1) is None);
                },
                Some(p) => {
                    if m == 0 {
                        assert(h1.ancestor(q, 0) == Some(q));
                    }
                    h1.lemma_front(q, p, (m - 1) as nat);
                    Heap::lemma_relink_ends(h1, h2, a, p, (m - 1) as nat);
                    let n = choose|n: nat| #[trigger] h2.ancestor(p, n) is None;
                    h2.lemma_front(q, p, n);
                    assert(h2.ancestor(q, n + 1) is None);
                },
            }
        }
    }

    /// Chains that meet themselves again repeat for good.
    proof fn lemma_shift(&self, p: ObjectRep, a: nat, b: nat, t: nat)
        requires
            self.ancestor(p, a) == self.ancestor(p, b),
        ensures
            self.ancestor(p, a + t) == self.ancestor(p, b + t),
        decreases t,
    {
        if t > 0 {
            self.lemma_shift(p, a, b, (t - 1) as nat);
            assert(self.ancestor(p, a + t) == self.step(self.ancestor(p, (a + t - 1) as nat)));
            assert(self.ancestor(p, b + t) == self.step(self.ancestor(p, (b + t - 1) as nat)));
        }
    }

    /// A chain that comes back to an object it has passed never ends.
    proof fn lemma_repeat_never_ends(&self, p: ObjectRep, a: nat, b: nat, m: nat)
        requires
            a < b,
            self.ancestor(p, a) == self.ancestor(p, b),
            forall|j: nat| j <= b ==> (#[trigger] self.ancestor(p, j)) is Some,
        ensures
            self.ancestor(p, m) is Some,
        decreases m,
    {
        if m > b {
            let t = (m - b) as nat;
            self.lemma_shift(p, a, b, t);
            self.lemma_repeat_never_ends(p, a, b, (a + t) as nat);
        }
    }

    /// Adds an object to the heap and hands back its handle.
    pub fn adopt(&mut self, obj: BaseObject) -> (r: ObjectRep)
        requires
            old(self).wf(),
            obj.wf(),
            obj.proto_view() matches Some(p) ==> old(self).contains(p),
        ensures
            final(self).wf(),
            final(self).annex_b_view() == old(self).annex_b_view(),
            final(self).objects_view() == old(self).objects_view().push(obj),
            final(self).contains(r),
            final(self).object(r) == obj,
    {
        let ghost prototype = obj.proto_view();
        let r = ObjectRep(self.objects.len());
        let ghost h1 = *self;
        self.objects.push(obj);
        proof {
            let h2 = *self;
            assert(h2.object(r) == obj);
            assert forall|q: ObjectRep| #[trigger] h2.contains(q) implies h2.object(q).wf()
                && (h2.object(q).proto_view() matches Some(p) ==> h2.contains(p)) by {
                if q.index() < h1.objects_view().len() {
                    assert(h1.contains(q));
                    assert(h2.object(q) == h1.object(q));
                } else {
                    assert(q == r);
                }
            }
            assert forall|q: ObjectRep| #[trigger] h2.contains(q) implies h2.chain_ends(q) by {
                if q.index() < h1.objects_view().len() {
                    assert(h1.contains(q));
                    assert(h1.chain_ends(q));
                    let n = choose|n: nat| #[trigger] h1.ancestor(q, n) is None;
                    Heap::lemma_push_agrees(&h1, &h2, obj, q, n);
                } else {
                    assert(q == r);
                    match prototype {
                        None => {
                            assert(h2.ancestor(r, 0) == Some(r));
                    assert(h2.ancestor(r, 1) == h2.step(h2.ancestor(r, 0)));
                            assert(h2.ancestor(r, 1) is None);
                        },
                        Some(p) => {
                            assert(h1.chain_ends(p));
                            let n = choose|n: nat| #[trigger] h1.ancestor(p, n) is None;
                            Heap::lemma_push_agrees(&h1, &h2, obj, p, n);
                            h2.lemma_front(r, p, n);
                            assert(h2.ancestor(r, n + 1) is None);
                        },
                    }
                }
            }
        }
        r
    }

    /// Adds a new, extensible object with no property and no slot, and the
    /// given prototype.
    pub fn create(&mut self, prototype: Option<ObjectRep>) -> (r: ObjectRep)
        requires
            old(self).wf(),
            prototype matches Some(p) ==> old(self).contains(p),
        ensures
            final(self).wf(),
            final(self).annex_b_view() == old(self).annex_b_view(),
            final(self).objects_view() == old(self).objects_view().push(final(self).object(r)),
            final(self).contains(r),
            final(self).object(r).props_view().dom() == Set::<KeyView>::empty(),
            final(self).object(r).order_view().len() == 0,
            final(self).object(r).slots_view().dom() == Set::<Seq<char>>::empty(),
            final(self).object(r).proto_view() == prototype,
            final(self).object(r).extensible_view(),
    {
        self.adopt(BaseObject::new(prototype))
    }

    /// The chain from `start` is, `j` steps up, at the object of place `x`.
    pub open spec fn passes(&self, start: ObjectRep, j: nat, x: usize) -> bool {
        self.ancestor(start, j) matches Some(c) && c.index() == x
    }

    /// Two links are the same.
    pub open spec fn same_link_spec(a: Option<ObjectRep>, b: Option<ObjectRep>) -> bool {
        a == b
    }

    /// Two handles designate the same object, or both are absent.
    fn same_link(a: Option<ObjectRep>, b: Option<ObjectRep>) -> (r: bool)
        ensures
            r == (a == b),
    {
        match (a, b) {
            (None, None) => true,
            (Some(x), Some(y)) => x.0 == y.0,
            _ => false,
        }
    }

    /// OrdinaryPreventExtensions on the object `o`.
    pub fn prevent_extensions(&mut self, o: ObjectRep) -> (r: CoreResult<bool>)
        requires
            old(self).wf(),
            old(self).contains(o),
        ensures
            r == Ok::<bool, crate::errors::CoreError>(true),
            final(self).wf(),
            final(self).annex_b_view() == old(self).annex_b_view(),
            final(self).objects_view() == old(self).objects_view().update(
                o.index(),
                final(self).object(o),
            ),
            !final(self).object(o).extensible_view(),
            final(self).object(o).props_view() == old(self).object(o).props_view(),
            final(self).object(o).order_view() == old(self).object(o).order_view(),
            final(self).object(o).slots_view() == old(self).object(o).slots_view(),
            final(self).object(o).proto_view() == old(self).object(o).proto_view(),
            final(self).object(o).id_view() == old(self).object(o).id_view(),
    {
        let ghost h1 = *self;
        let r = self.objects[o.0].prevent_extensions();
        proof {
            assert(self.objects_view() =~= h1.objects_view().update(o.index(), self.object(o)));
            Heap::lemma_replace_keeps_wf(&h1, self, o);
        }
        r
    }

    /// OrdinaryGetOwnProperty on the object `o`.
    pub fn get_own_property(&self, o: ObjectRep, key: &PropertyKey) -> (r: CoreResult<
        Option<Property>,
    >)
        requires
            self.contains(o),
        ensures
            r == Ok::<Option<Property>, crate::errors::CoreError>(
                lookup(self.object(o).props_view(), key@),
            ),
    {
        self.objects[o.0].get_own_property(key)
    }

    /// OrdinaryGetPrototypeOf on the object `o`.
    pub fn get_prototype_of(&self, o: ObjectRep) -> (r: CoreResult<Option<ObjectRep>>)
        requires
            self.contains(o),
        ensures
            r == Ok::<Option<ObjectRep>, crate::errors::CoreError>(self.object(o).proto_view()),
    {
        self.objects[o.0].get_prototype_of()
    }

    /// OrdinaryIsExtensible on the object `o`.
    pub fn is_extensible(&self, o: ObjectRep) -> (r: CoreResult<bool>)
        requires
            self.contains(o),
        ensures
            r == Ok::<bool, crate::errors::CoreError>(self.object(o).extensible_view()),
    {
        self.objects[o.0].is_extensible()
    }

    /// The slot of the object `o` of the given name, if there is one.
    pub fn get_slot(&self, o: ObjectRep, key: String) -> (r: Option<SlotValue>)
        requires
            self.wf(),
            self.contains(o),
        ensures
            r == lookup(self.object(o).slots_view(), key@),
    {
        self.objects[o.0].get_slot(key)
    }

    /// Stores a slot of the object `o`; this always succeeds.
    pub fn set_slot(&mut self, o: ObjectRep, key: String, value: SlotValue) -> (r: bool)
        requires
            old(self).wf(),
            old(self).contains(o),
        ensures
            r,
            final(self).wf(),
            final(self).annex_b_view() == old(self).annex_b_view(),
            final(self).objects_view() == old(self).objects_view().update(
                o.index(),
                final(self).object(o),
            ),
            final(self).object(o).slots_view() == old(self).object(o).slots_view().insert(
                key@,
                value,
            ),
            final(self).object(o).props_view() == old(self).object(o).props_view(),
            final(self).object(o).order_view() == old(self).object(o).order_view(),
            final(self).object(o).proto_view() == old(self).object(o).proto_view(),
            final(self).object(o).extensible_view() == old(self).object(o).extensible_view(),
            final(self).object(o).id_view() == old(self).object(o).id_view(),
    {
        let ghost h1 = *self;
        let r = self.objects[o.0].set_slot(key, value);
        proof {
            assert(self.objects_view() =~= h1.objects_view().update(o.index(), self.object(o)));
            Heap::lemma_replace_keeps_wf(&h1, self, o);
        }
        r
    }

    /// OrdinaryDefineOwnProperty on the object `o`.
    pub fn define_own_property(&mut self, o: ObjectRep, key: PropertyKey, desc: Descriptor) -> (r:
        CoreResult<bool>)
        requires
            old(self).wf(),
            old(self).contains(o),
        ensures
            final(self).wf(),
            final(self).annex_b_view() == old(self).annex_b_view(),
            final(self).objects_view() == old(self).objects_view().update(
                o.index(),
                final(self).object(o),
            ),
            define_post(old(self).object(o), key@, desc, r, final(self).object(o)),
    {
        let ghost h1 = *self;
        let ghost k = key@;
        let r = self.objects[o.0].define_own_property(key, desc);
        proof {
            assert(self.objects_view() =~= h1.objects_view().update(o.index(), self.object(o)));
            assert(h1.object(o).wf());
            Heap::lemma_replace_keeps_wf(&h1, self, o);
        }
        r
    }

    /// OrdinaryDelete on the object `o`.
    pub fn delete(&mut self, o: ObjectRep, key: &PropertyKey) -> (r: CoreResult<bool>)
        requires
            old(self).wf(),
            old(self).contains(o),
        ensures
            final(self).wf(),
            final(self).annex_b_view() == old(self).annex_b_view(),
            final(self).objects_view() == old(self).objects_view().update(
                o.index(),
                final(self).object(o),
            ),
            delete_post(old(self).object(o), key@, r, final(self).object(o)),
    {
        let ghost h1 = *self;
        let r = self.objects[o.0].delete(key);
        proof {
            assert(self.objects_view() =~= h1.objects_view().update(o.index(), self.object(o)));
            assert(h1.object(o).wf());
            Heap::lemma_replace_keeps_wf(&h1, self, o);
        }
        r
    }

    /// OrdinaryHasProperty: the key is an own property of `o`, or else of
    /// an object up its prototype chain.
    pub fn has_property(&self, o: ObjectRep, key: &PropertyKey) -> (r: CoreResult<bool>)
        requires
            self.wf(),
            self.contains(o),
        ensures
            r == Ok::<bool, crate::errors::CoreError>(self.has_property_spec(o, key@)),
    {
        assert(self.chain_ends(o));
        let ghost end = choose|n: nat| #[trigger] self.ancestor(o, n) is None;
        let mut cur: Option<ObjectRep> = Some(o);
        let ghost mut i: nat = 0;
        assert(self.ancestor(o, 0) == Some(o));
        loop
            invariant
                self.wf(),
                self.contains(o),
                self.ancestor(o, end) is None,
                cur == self.ancestor(o, i),
                forall|j: nat|
                    j < i ==> !(#[trigger] self.ancestor(o, j) matches Some(q) && self.contains(q)
                        && self.object(q).props_view().contains_key(key@)),
            decreases end - i,
        {
            match cur {
                None => {
                    proof {
                        assert forall|n: nat|
                            !(#[trigger] self.ancestor(o, n) matches Some(q) && self.contains(q)
                                && self.object(q).props_view().contains_key(key@)) by {
                            if n >= i {
                                self.lemma_none_stays(o, i, n);
                            }
                        }
                    }
                    return Ok(false);
                },
                Some(c) => {
                    proof {
                        self.lemma_chain_contained(o, i);
                        if i >= end {
                            self.lemma_none_stays(o, end, i);
                        }
                    }
                    match self.objects[c.0].get_own_property(key) {
                        Ok(Some(_)) => {
                            assert(self.ancestor(o, i) matches Some(q) && self.contains(q)
                                && self.object(q).props_view().contains_key(key@));
                            return Ok(true);
                        },
                        _ => {},
                    }
                    let next = self.objects[c.0].proto();
                    proof {
                        assert(self.ancestor(o, i + 1) == self.step(self.ancestor(o, i)));
                        i = i + 1;
                    }
                    cur = next;
                },
            }
        }
    }

    /// OrdinarySetPrototypeOf: links `o` to a new prototype. The same
    /// prototype again succeeds at once. Otherwise a non-extensible object
    /// refuses, and so does a link whose chain would lead back to `o`; the
    /// walk up that chain stops early at an object it has already passed.
    pub fn set_prototype_of(&mut self, o: ObjectRep, proto: Option<ObjectRep>) -> (r: bool)
        requires
            old(self).wf(),
            old(self).contains(o),
            proto matches Some(p) ==> old(self).contains(p),
        ensures
            final(self).wf(),
            final(self).annex_b_view() == old(self).annex_b_view(),
            set_prototype_post(*old(self), o, proto, r, *final(self)),
    {
        let current = self.objects[o.0].proto();
        if Heap::same_link(current, proto) {
            proof {
                assert(self.objects_view() =~= self.objects_view().update(o.index(), self.object(o)));
            }
            return true;
        }
        if !self.objects[o.0].extensible_flag() {
            proof {
                assert(self.objects_view() =~= self.objects_view().update(o.index(), self.object(o)));
            }
            return false;
        }
        let ghost start = proto->Some_0;
        let ghost end: nat = if proto is Some {
            choose|n: nat| #[trigger] self.ancestor(start, n) is None
        } else {
            0
        };
        proof {
            if proto is Some {
                assert(self.chain_ends(start));
            }
        }
        let mut visited: std::collections::HashSet<usize> = std::collections::HashSet::new();
        let mut p: Option<ObjectRep> = proto;
        let ghost mut i: nat = 0;
        proof {
            if proto is Some {
                assert(self.ancestor(start, 0) == Some(start));
            }
        }
        loop
            invariant
                *self == *old(self),
                self.wf(),
                self.contains(o),
                !Heap::same_link_spec(self.object(o).proto_view(), proto),
                self.object(o).extensible_view(),
                proto is None ==> p is None,
                proto is Some ==> {
                    &&& proto == Some(start)
                    &&& self.contains(start)
                    &&& self.ancestor(start, end) is None
                    &&& p == self.ancestor(start, i)
                    &&& forall|j: nat| j < i ==> (#[trigger] self.ancestor(start, j)) is Some
                    &&& forall|j: nat| j < i ==> #[trigger] self.ancestor(start, j) != Some(o)
                    &&& forall|x: usize|
                        visited@.contains(x) <==> exists|j: nat|
                            j < i && #[trigger] self.passes(start, j, x)
                },
            ensures
                *self == *old(self),
                self.wf(),
                self.contains(o),
                !Heap::same_link_spec(self.object(o).proto_view(), proto),
                self.object(o).extensible_view(),
                p is None,
                proto is Some ==> {
                    &&& p == self.ancestor(start, i)
                    &&& forall|j: nat| j < i ==> #[trigger] self.ancestor(start, j) != Some(o)
                },
            decreases end - i,
        {
            broadcast use vstd::std_specs::hash::group_hash_axioms;

            match p {
                None => {
                    break ;
                },
                Some(rep) => {
                    assert(proto is Some);
                    proof {
                        self.lemma_chain_contained(start, i);
                        if i >= end {
                            self.lemma_none_stays(start, end, i);
                        }
                    }
                    if rep.0 == o.0 {
                        proof {
                            assert(rep == o);
                            assert(proto == Some(start));
                            assert(self.ancestor(start, i) == Some(o));
                            assert(self.reaches(proto, o));
                            assert(self.objects_view() =~= self.objects_view().update(
                                o.index(),
                                self.object(o),
                            ));
                        }
                        return false;
                    } else if visited.contains(&rep.0) {
                        proof {
                            let j = choose|j: nat|
                                j < i && #[trigger] self.passes(start, j, rep.0);
                            let c = self.ancestor(start, j)->Some_0;
                            assert(c == rep);
                            assert forall|k: nat| k <= i implies (#[trigger] self.ancestor(
                                start,
                                k,
                            )) is Some by {}
                            // A chain that ends never comes back to an object
                            // it has passed, so the walk never stops here.
                            self.lemma_repeat_never_ends(start, j, i, end);
                            assert(false);
                        }
                        break ;
                    } else {
                        visited.insert(rep.0);
                        let next = self.objects[rep.0].proto();
                        proof {
                            assert(self.ancestor(start, i + 1) == self.step(self.ancestor(start, i)));
                            let ghost old_i = i;
                            i = i + 1;
                            assert forall|x: usize|
                                visited@.contains(x) <==> exists|j: nat|
                                    j < i && #[trigger] self.passes(start, j, x) by {
                                if x == rep.0 {
                                    assert(self.passes(start, old_i, x));
                                }
                                if exists|j: nat|
                                    j < i && #[trigger] self.passes(start, j, x) {
                                    let j = choose|j: nat|
                                        j < i && #[trigger] self.passes(start, j, x);
                                    if j < old_i {
                                    } else {
                                        assert(j == old_i);
                                    }
                                }
                            }
                        }
                        p = next;
                    }
                },
            }
        }
        proof {
            if proto is Some {
                assert(p is None);
                assert forall|n: nat| #[trigger] self.ancestor(start, n) != Some(o) by {
                    if n >= i {
                        self.lemma_none_stays(start, i, n);
                    }
                }
                assert(!self.reaches(proto, o));
            }
        }
        let ghost h1 = *self;
        self.objects[o.0].set_proto(proto);
        proof {
            assert(self.objects_view() =~= h1.objects_view().update(o.index(), self.object(o)));
            assert forall|q: ObjectRep| #[trigger] self.contains(q) implies self.chain_ends(q) by {
                assert(h1.contains(q));
                assert(h1.chain_ends(q));
                let m = choose|m: nat| #[trigger] h1.ancestor(q, m) is None;
                Heap::lemma_relink_ends(&h1, self, o, q, m);
            }
            assert forall|q: ObjectRep| #[trigger] self.contains(q) implies self.object(q).wf()
                && (self.object(q).proto_view() matches Some(x) ==> self.contains(x)) by {
                assert(h1.contains(q));
                if q.index() != o.index() {
                    assert(self.object(q) == h1.object(q));
                }
            }
        }
        true
    }
}

/// The slot of the object of the given name, if there is one.
pub fn p262_get_slot(heap: &Heap, obj: ObjectRep, key: String) -> (r: Option<SlotValue>)
    requires
        heap.wf(),
        heap.contains(obj),
    ensures
        r == lookup(heap.object(obj).slots_view(), key@),
{
    heap.get_slot(obj, key)
}

/// Does the object have a slot of the given name?
pub fn p262_has_slot(heap: &Heap, obj: ObjectRep, key: String) -> (r: bool)
    requires
        heap.wf(),
        heap.contains(obj),
    ensures
        r == heap.object(obj).slots_view().contains_key(key@),
{
    heap.get_slot(obj, key).is_some()
}

/// Linking an object to itself fails and leaves its prototype as it was,
/// unless that link is already its prototype, which succeeds at once.
pub proof fn lemma_self_link(before: Heap, a: ObjectRep, r: bool, after: Heap)
    requires
        before.contains(a),
        set_prototype_post(before, a, Some(a), r, after),
    ensures
        before.object(a).proto_view() != Some(a) ==> !r && after.object(a).proto_view()
            == before.object(a).proto_view(),
        before.object(a).proto_view() == Some(a) ==> r,
{
    assert(before.ancestor(a, 0) == Some(a));
    assert(before.reaches(Some(a), a));
}

} // verus!
