//! Symbol values and the global symbol registry.

use std::rc::Rc;
use vstd::prelude::*;

use crate::id::MagicId;

verus! {

/// Relies on `Rc::clone`: the result points to the same allocation, so it
/// holds the same value.
#[verifier::external_body]
pub(crate) fn share<T>(rc: &Rc<T>) -> (r: Rc<T>)
    ensures
        r == *rc,
{
    Rc::clone(rc)
}

/// The text of an optional string.
pub open spec fn optional_text(s: Option<String>) -> Option<Seq<char>> {
    match s {
        Some(d) => Some(d@),
        None => None,
    }
}

/// A symbol value: an identity tag and an optional description.
///
/// Two symbols are equal when their tags are, whatever their descriptions.
#[derive(Debug)]
pub struct SymbolRep(MagicId, Option<String>);

impl SymbolRep {
    /// The identity tag.
    pub closed spec fn tag(&self) -> u64 {
        self.0.0
    }

    /// The description, if any.
    pub closed spec fn description_view(&self) -> Option<Seq<char>> {
        optional_text(self.1)
    }

    /// Creates a symbol without a description.
    pub fn anon() -> (r: Self)
        ensures
            r.description_view() == None::<Seq<char>>,
    {
        SymbolRep::new(None)
    }

    /// Creates a symbol with the given description.
    pub fn named(description: String) -> (r: Self)
        ensures
            r.description_view() == Some(description@),
    {
        SymbolRep::new(Some(description))
    }

    /// Creates a symbol with a fresh tag and the given description.
    pub fn new(description: Option<String>) -> (r: Self)
        ensures
            r.description_view() == optional_text(description),
    {
        SymbolRep(MagicId::new(), description)
    }

    /// The identity tag.
    pub fn id(&self) -> (r: MagicId)
        ensures
            r.0 == self.tag(),
    {
        self.0
    }

    /// The description, if any.
    pub fn description(&self) -> (r: &Option<String>)
        ensures
            optional_text(*r) == self.description_view(),
    {
        &self.1
    }
}

impl Clone for SymbolRep {
    fn clone(&self) -> (r: Self)
        ensures
            r == *self,
    {
        let description = match &self.1 {
            Some(d) => Some(d.clone()),
            None => None,
        };
        SymbolRep(self.0, description)
    }
}

impl PartialEq for SymbolRep {
    fn eq(&self, other: &SymbolRep) -> (r: bool)
        ensures
            r == (self.tag() == other.tag()),
    {
        self.0 == other.0
    }
}

impl vstd::std_specs::cmp::PartialEqSpecImpl for SymbolRep {
    open spec fn obeys_eq_spec() -> bool {
        true
    }

    open spec fn eq_spec(&self, other: &SymbolRep) -> bool {
        self.tag() == other.tag()
    }
}

impl Eq for SymbolRep {
}

/// The global symbol registry: at most one symbol for each description,
/// created on first lookup and kept for good.
pub struct SymbolRegistry {
    entries: Vec<(String, Rc<SymbolRep>)>,
}

/// What a call of [`SymbolRegistry::get`] does: with `before` the registry's
/// contents and `d` the description asked for, it hands back `r` and leaves
/// `after`.
pub open spec fn registry_get_post(
    before: Map<Seq<char>, SymbolRep>,
    d: Seq<char>,
    r: SymbolRep,
    after: Map<Seq<char>, SymbolRep>,
) -> bool {
    &&& r.description_view() == Some(d)
    &&& if before.contains_key(d) {
        r == before[d] && after == before
    } else {
        after == before.insert(d, r)
    }
}

/// Looking a description up twice gives the same symbol, and the second
/// lookup leaves the registry as the first left it.
pub proof fn lemma_registry_get_twice(
    m0: Map<Seq<char>, SymbolRep>,
    d: Seq<char>,
    s1: SymbolRep,
    m1: Map<Seq<char>, SymbolRep>,
    s2: SymbolRep,
    m2: Map<Seq<char>, SymbolRep>,
)
    requires
        registry_get_post(m0, d, s1, m1),
        registry_get_post(m1, d, s2, m2),
    ensures
        s1 == s2,
        s1.tag() == s2.tag(),
        m2 == m1,
{
}

impl View for SymbolRegistry {
    type V = Map<Seq<char>, SymbolRep>;

    closed spec fn view(&self) -> Map<Seq<char>, SymbolRep> {
        Map::new(
            |d: Seq<char>| exists|i: int| 0 <= i < self.entries@.len() && self.entries@[i].0@ == d,
            |d: Seq<char>|
                *self.entries@[choose|i: int|
                    0 <= i < self.entries@.len() && self.entries@[i].0@ == d].1,
        )
    }
}

impl SymbolRegistry {
    /// Each description appears once, and the symbol stored for it carries it.
    pub closed spec fn wf(&self) -> bool {
        &&& forall|i: int, j: int|
            0 <= i < j < self.entries@.len() ==> self.entries@[i].0@ != self.entries@[j].0@
        &&& forall|i: int|
            0 <= i < self.entries@.len() ==> (#[trigger] self.entries@[i]).1.description_view()
                == Some(self.entries@[i].0@)
    }

    /// An empty registry.
    pub fn new() -> (r: Self)
        ensures
            r.wf(),
            r@ == Map::<Seq<char>, SymbolRep>::empty(),
    {
        let r = SymbolRegistry { entries: Vec::new() };
        assert(r@ =~= Map::<Seq<char>, SymbolRep>::empty());
        r
    }

    /// Returns the symbol registered for `description`, creating and
    /// registering it first if there is none.
    pub fn get(&mut self, description: String) -> (r: Rc<SymbolRep>)
        requires
            old(self).wf(),
        ensures
            final(self).wf(),
            registry_get_post(old(self)@, description@, *r, final(self)@),
    {
        let n = self.entries.len();
        let mut i: usize = 0;
        while i < n
            invariant
                n == self.entries@.len(),
                *self == *old(self),
                self.wf(),
                0 <= i <= n,
                forall|j: int| 0 <= j < i ==> self.entries@[j].0@ != description@,
            decreases n - i,
        {
            if self.entries[i].0 == description {
                let found = share(&self.entries[i].1);
                proof {
                    let k = choose|k: int|
                        0 <= k < self.entries@.len() && self.entries@[k].0@ == description@;
                    assert(k == i as int) by {
                        if k != i as int {
                            assert(self.entries@[k].0@ != self.entries@[i as int].0@);
                        }
                    }
                }
                return found;
            }
            i = i + 1;
        }
        let symbol = Rc::new(SymbolRep::named(description.clone()));
        let r = share(&symbol);
        let ghost before = self@;
        self.entries.push((description, symbol));
        proof {
            let len = self.entries@.len();
            assert(forall|j: int| 0 <= j < len - 1 ==> self.entries@[j] == old(self).entries@[j]);
            assert(self@ =~= before.insert(description@, *r)) by {
                assert forall|d: Seq<char>| #[trigger] self@.contains_key(d) implies
                    before.contains_key(d) || d == description@ by {
                    let k = choose|k: int| 0 <= k < len && self.entries@[k].0@ == d;
                    if k < len - 1 {
                        assert(old(self).entries@[k].0@ == d);
                    }
                }
                assert forall|d: Seq<char>| before.contains_key(d) implies #[trigger] self@.contains_key(d)
                    && self@[d] == before[d] by {
                    let k = choose|k: int|
                        0 <= k < old(self).entries@.len() && old(self).entries@[k].0@ == d;
                    assert(self.entries@[k] == old(self).entries@[k]);
                    let k2 = choose|k2: int| 0 <= k2 < len && self.entries@[k2].0@ == d;
                    if k2 != k {
                        if k2 < k {
                            assert(self.entries@[k2].0@ != self.entries@[k].0@);
                        } else if k2 < len - 1 {
                            assert(self.entries@[k].0@ != self.entries@[k2].0@);
                        }
                    }
                }
                assert(self.entries@[len - 1].0@ == description@);
                let k2 = choose|k2: int| 0 <= k2 < len && self.entries@[k2].0@ == description@;
                if k2 < len - 1 {
                    assert(self.entries@[k2] == old(self).entries@[k2]);
                }
            }
        }
        r
    }
}

impl Default for SymbolRegistry {
    fn default() -> (r: Self)
        ensures
            r.wf(),
            r@ == Map::<Seq<char>, SymbolRep>::empty(),
    {
        SymbolRegistry::new()
    }
}

} // verus!
