//! The persistent contact manifold.

use vstd::prelude::*;
use crate::allocator::{after_alloc, alloc_id, IdAllocator, Ids};
use crate::contact::RawContact;
use crate::feature::FeatureId;
use crate::kinematic::ContactKinematic;

verus! {

/// A contact of the manifold: a raw contact, the way it is tracked, and
/// the slot that it keeps for as long as its pair of features is produced
/// again.
#[derive(Clone, Copy, Debug, PartialEq, Eq, Structural)]
pub struct TrackedContact {
    pub id: usize,
    pub contact: RawContact,
    pub kinematic: ContactKinematic,
}

/// A raw contact together with its classification, ready to be pushed.
#[derive(Clone, Copy, Debug, PartialEq, Eq, Structural)]
pub struct NewContact {
    pub contact: RawContact,
    pub kinematic: ContactKinematic,
}

/// The contacts between two shapes, kept from one frame to the next.
#[derive(Clone, Debug)]
pub struct ContactManifold {
    contacts: Vec<TrackedContact>,
    cache: Vec<TrackedContact>,
}

/// What a manifold holds: the contacts of the current frame, and those of
/// the frame before whose pair of features has not been pushed again yet.
pub struct ManifoldState {
    pub live: Seq<TrackedContact>,
    pub cached: Seq<TrackedContact>,
}

/// The contact was produced by the features `f1` and `f2`.
pub open spec fn has_pair(c: TrackedContact, f1: FeatureId, f2: FeatureId) -> bool {
    c.contact.feature1 == f1 && c.contact.feature2 == f2
}

/// The first index at or after `from` of a contact of the pair
/// `(f1, f2)`, or the length of `s` where there is none.
pub open spec fn slot_index(s: Seq<TrackedContact>, f1: FeatureId, f2: FeatureId, from: int) -> int
    decreases s.len() - from,
{
    if from >= s.len() {
        s.len() as int
    } else if has_pair(s[from], f1, f2) {
        from
    } else {
        slot_index(s, f1, f2, from + 1)
    }
}

/// The index of the first contact of the pair `(f1, f2)`, or the length of
/// `s`.
pub open spec fn find(s: Seq<TrackedContact>, f1: FeatureId, f2: FeatureId) -> int {
    slot_index(s, f1, f2, 0)
}

/// Some contact of `s` belongs to the pair `(f1, f2)`.
pub open spec fn holds(s: Seq<TrackedContact>, f1: FeatureId, f2: FeatureId) -> bool {
    find(s, f1, f2) < s.len()
}

/// The first contact of the pair `(f1, f2)` in `s` has the slot `id`.
pub open spec fn tracks(s: Seq<TrackedContact>, f1: FeatureId, f2: FeatureId, id: usize) -> bool {
    holds(s, f1, f2) && s[find(s, f1, f2)].id == id
}

/// No two contacts of `s` belong to the same pair of features.
pub open spec fn distinct_pairs(s: Seq<TrackedContact>) -> bool {
    forall|i: int, j: int|
        0 <= i < j < s.len() ==> !has_pair(#[trigger] s[j], (#[trigger] s[i]).contact.feature1, s[i].contact.feature2)
}

/// No contact of `b` belongs to the pair of features of a contact of `a`.
pub open spec fn apart(a: Seq<TrackedContact>, b: Seq<TrackedContact>) -> bool {
    forall|i: int, j: int|
        0 <= i < a.len() && 0 <= j < b.len() ==> !has_pair(
            #[trigger] b[j],
            (#[trigger] a[i]).contact.feature1,
            a[i].contact.feature2,
        )
}

/// The slots of the contacts of `s`, in their order.
pub open spec fn slots_of(s: Seq<TrackedContact>) -> Seq<usize> {
    Seq::new(s.len(), |i: int| s[i].id)
}

/// Some entry of `entries` belongs to the pair `(f1, f2)`.
pub open spec fn mentions(entries: Seq<NewContact>, f1: FeatureId, f2: FeatureId) -> bool {
    exists|i: int|
        0 <= i < entries.len() && (#[trigger] entries[i]).contact.feature1 == f1 && entries[i].contact.feature2
            == f2
}

impl ManifoldState {
    /// Each pair of features has at most one contact, in the current frame
    /// or in the frame before.
    pub open spec fn wf(self) -> bool {
        &&& distinct_pairs(self.live)
        &&& distinct_pairs(self.cached)
        &&& apart(self.live, self.cached)
    }

    /// The state at the start of a frame: the contacts become those of the
    /// frame before. The slots of the contacts that the last frame did not
    /// take over go back to the allocator, in their order.
    pub open spec fn begin_update(self, ids: Ids) -> (ManifoldState, Ids) {
        (
            ManifoldState { live: Seq::empty(), cached: self.live },
            Ids { next: ids.next, recycled: ids.recycled + slots_of(self.cached) },
        )
    }

    /// The state after a contact is pushed, and whether it took the place
    /// of another.
    ///
    /// A contact of the same pair of features in the current frame is
    /// replaced and leaves its slot to the new one. Otherwise a contact of
    /// the same pair in the frame before leaves its slot to the new one.
    /// Otherwise the new contact gets a slot from the allocator.
    pub open spec fn push(self, ids: Ids, contact: RawContact, kinematic: ContactKinematic) -> (
        ManifoldState,
        Ids,
        bool,
    ) {
        let i = find(self.live, contact.feature1, contact.feature2);
        let k = find(self.cached, contact.feature1, contact.feature2);
        if i < self.live.len() {
            let c = TrackedContact { id: self.live[i].id, contact, kinematic };
            (ManifoldState { live: self.live.update(i, c), cached: self.cached }, ids, true)
        } else if k < self.cached.len() {
            let c = TrackedContact { id: self.cached[k].id, contact, kinematic };
            (ManifoldState { live: self.live.push(c), cached: self.cached.remove(k) }, ids, true)
        } else {
            let c = TrackedContact { id: alloc_id(ids), contact, kinematic };
            (ManifoldState { live: self.live.push(c), cached: self.cached }, after_alloc(ids), false)
        }
    }

    /// The state after the entries are pushed one after another.
    pub open spec fn push_all(self, ids: Ids, entries: Seq<NewContact>) -> (ManifoldState, Ids)
        decreases entries.len(),
    {
        if entries.len() == 0 {
            (self, ids)
        } else {
            let before = self.push_all(ids, entries.drop_last());
            let after = before.0.push(before.1, entries.last().contact, entries.last().kinematic);
            (after.0, after.1)
        }
    }

    /// The state after a whole frame: a start, then the entries.
    pub open spec fn frame(self, ids: Ids, entries: Seq<NewContact>) -> (ManifoldState, Ids) {
        let started = self.begin_update(ids);
        started.0.push_all(started.1, entries)
    }
}

/// `slot_index` returns the first index of the pair, if there is one.
pub proof fn lemma_slot_index(s: Seq<TrackedContact>, f1: FeatureId, f2: FeatureId, from: int)
    requires
        0 <= from <= s.len(),
    ensures
        from <= slot_index(s, f1, f2, from) <= s.len(),
        slot_index(s, f1, f2, from) < s.len() ==> has_pair(s[slot_index(s, f1, f2, from)], f1, f2),
        forall|k: int| from <= k < slot_index(s, f1, f2, from) ==> !has_pair(#[trigger] s[k], f1, f2),
    decreases s.len() - from,
{
    if from < s.len() && !has_pair(s[from], f1, f2) {
        lemma_slot_index(s, f1, f2, from + 1);
    }
}

/// An index is the one that `find` returns when a contact of the pair
/// stands there and none stands before it.
pub proof fn lemma_find_is(s: Seq<TrackedContact>, f1: FeatureId, f2: FeatureId, i: int)
    requires
        0 <= i <= s.len(),
        i < s.len() ==> has_pair(s[i], f1, f2),
        forall|k: int| 0 <= k < i ==> !has_pair(#[trigger] s[k], f1, f2),
    ensures
        find(s, f1, f2) == i,
{
    lemma_slot_index(s, f1, f2, 0);
}

impl View for ContactManifold {
    type V = ManifoldState;

    closed spec fn view(&self) -> ManifoldState {
        ManifoldState { live: self.contacts@, cached: self.cache@ }
    }
}

/// Returns the index of the first contact of the pair `(f1, f2)`, or the
/// length of `slots`.
pub fn find_slot(slots: &Vec<TrackedContact>, f1: FeatureId, f2: FeatureId) -> (r: usize)
    ensures
        r == find(slots@, f1, f2),
{
    let n: usize = slots.len();
    let mut i: usize = 0;
    while i < n
        invariant
            0 <= i <= n,
            n == slots@.len(),
            find(slots@, f1, f2) == slot_index(slots@, f1, f2, i as int),
        decreases n - i,
    {
        if slots[i].contact.feature1.same(&f1) && slots[i].contact.feature2.same(&f2) {
            return i;
        }
        i += 1;
    }
    n
}

impl ContactManifold {
    /// A manifold without contacts.
    pub fn new() -> (m: ContactManifold)
        ensures
            m@ == (ManifoldState { live: Seq::empty(), cached: Seq::empty() }),
            m@.wf(),
    {
        ContactManifold { contacts: Vec::new(), cache: Vec::new() }
    }

    /// The number of contacts of the current frame.
    pub fn len(&self) -> (n: usize)
        ensures
            n == self@.live.len(),
    {
        self.contacts.len()
    }

    /// The contacts of the current frame, in the order in which their
    /// pairs of features were first pushed.
    pub fn contacts(&self) -> (r: &Vec<TrackedContact>)
        ensures
            r@ == self@.live,
    {
        &self.contacts
    }

    /// The slot of the contact of the pair `(f1, f2)` in the current
    /// frame, if there is one.
    pub fn slot_of(&self, f1: FeatureId, f2: FeatureId) -> (r: Option<usize>)
        ensures
            r is Some == holds(self@.live, f1, f2),
            r matches Some(id) ==> tracks(self@.live, f1, f2, id),
    {
        let i: usize = find_slot(&self.contacts, f1, f2);
        if i < self.contacts.len() {
            Some(self.contacts[i].id)
        } else {
            None
        }
    }

    /// Starts a frame: keeps the contacts for matching and gives back the
    /// slots that the last frame left unused.
    pub fn save_cache_and_clear(&mut self, ids: &mut IdAllocator)
        ensures
            (final(self)@, final(ids)@) == old(self)@.begin_update(old(ids)@),
            old(self)@.wf() ==> final(self)@.wf(),
    {
        let n: usize = self.cache.len();
        let mut i: usize = 0;
        while i < n
            invariant
                0 <= i <= n,
                n == self.cache@.len(),
                *self == *old(self),
                ids@.next == old(ids)@.next,
                ids@.recycled == old(ids)@.recycled + slots_of(self.cache@.take(i as int)),
            decreases n - i,
        {
            ids.free(self.cache[i].id);
            i += 1;
            assert(ids@.recycled =~= old(ids)@.recycled + slots_of(self.cache@.take(i as int)));
        }
        assert(self.cache@.take(n as int) =~= self.cache@);
        let mut previous: Vec<TrackedContact> = Vec::new();
        std::mem::swap(&mut self.contacts, &mut previous);
        self.cache = previous;
    }

    /// Pushes a contact and tells whether it took the place of another.
    pub fn push(&mut self, contact: RawContact, kinematic: ContactKinematic, ids: &mut IdAllocator) -> (replaced:
        bool)
        ensures
            (final(self)@, final(ids)@, replaced) == old(self)@.push(old(ids)@, contact, kinematic),
            old(self)@.wf() ==> final(self)@.wf(),
    {
        proof {
            if old(self)@.wf() {
                lemma_push_one(old(self)@, old(ids)@, contact, kinematic, contact.feature1, contact.feature2);
            }
        }
        let i: usize = find_slot(&self.contacts, contact.feature1, contact.feature2);
        if i < self.contacts.len() {
            let id: usize = self.contacts[i].id;
            self.contacts[i] = TrackedContact { id, contact, kinematic };
            return true;
        }
        let k: usize = find_slot(&self.cache, contact.feature1, contact.feature2);
        if k < self.cache.len() {
            let old_contact: TrackedContact = self.cache.remove(k);
            self.contacts.push(TrackedContact { id: old_contact.id, contact, kinematic });
            return true;
        }
        let id: usize = ids.allocate();
        self.contacts.push(TrackedContact { id, contact, kinematic });
        false
    }
}

/// What one push changes. It keeps the state well formed. It leaves every
/// other pair of features where it was, with its slot. The pushed pair is
/// in the current frame afterwards, and no longer in the frame before,
/// with the slot that it had in either.
pub proof fn lemma_push_one(
    s: ManifoldState,
    ids: Ids,
    contact: RawContact,
    kinematic: ContactKinematic,
    g1: FeatureId,
    g2: FeatureId,
)
    requires
        s.wf(),
    ensures
        ({
            let r = s.push(ids, contact, kinematic).0;
            let f1 = contact.feature1;
            let f2 = contact.feature2;
            &&& r.wf()
            &&& !(g1 == f1 && g2 == f2) ==> {
                &&& holds(r.live, g1, g2) == holds(s.live, g1, g2)
                &&& holds(r.cached, g1, g2) == holds(s.cached, g1, g2)
                &&& forall|id: usize| tracks(r.live, g1, g2, id) == tracks(s.live, g1, g2, id)
                &&& forall|id: usize| tracks(r.cached, g1, g2, id) == tracks(s.cached, g1, g2, id)
            }
            &&& holds(r.live, f1, f2)
            &&& !holds(r.cached, f1, f2)
            &&& forall|id: usize| tracks(s.live, f1, f2, id) ==> tracks(r.live, f1, f2, id)
            &&& !holds(s.live, f1, f2) ==> forall|id: usize|
                tracks(s.cached, f1, f2, id) ==> tracks(r.live, f1, f2, id)
            &&& r.live.len() == s.live.len() + (if holds(s.live, f1, f2) { 0int } else { 1int })
        }),
{
    let f1 = contact.feature1;
    let f2 = contact.feature2;
    let r = s.push(ids, contact, kinematic).0;
    let i = find(s.live, f1, f2);
    let k = find(s.cached, f1, f2);
    lemma_slot_index(s.live, f1, f2, 0);
    lemma_slot_index(s.cached, f1, f2, 0);
    lemma_slot_index(s.live, g1, g2, 0);
    lemma_slot_index(s.cached, g1, g2, 0);
    let gi = find(s.live, g1, g2);
    let gk = find(s.cached, g1, g2);
    if i < s.live.len() {
        // The contact of the pair is replaced where it stands.
        lemma_find_is(r.live, f1, f2, i);
        if !(g1 == f1 && g2 == f2) {
            lemma_find_is(r.live, g1, g2, gi);
        }
        assert(distinct_pairs(r.live));
        assert(apart(r.live, r.cached));
    } else if k < s.cached.len() {
        lemma_find_is(r.live, f1, f2, s.live.len() as int);
        assert(distinct_pairs(r.live));
        assert(distinct_pairs(r.cached));
        assert(apart(r.live, r.cached));
        lemma_find_is(r.cached, f1, f2, r.cached.len() as int);
        if !(g1 == f1 && g2 == f2) {
            lemma_find_is(r.live, g1, g2, if gi < s.live.len() { gi } else { gi + 1 });
            lemma_find_is(r.cached, g1, g2, if gk < k { gk } else { gk - 1 });
        }
    } else {
        lemma_find_is(r.live, f1, f2, s.live.len() as int);
        assert(distinct_pairs(r.live));
        assert(apart(r.live, r.cached));
        if !(g1 == f1 && g2 == f2) {
            lemma_find_is(r.live, g1, g2, if gi < s.live.len() { gi } else { gi + 1 });
        }
    }
}

} // verus!
