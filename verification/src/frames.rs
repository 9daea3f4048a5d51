//! What holds of a manifold from one frame to the next.

use vstd::prelude::*;
use crate::allocator::{after_alloc, alloc_id, Ids};
use crate::feature::FeatureId;
use crate::manifold::{
    find, has_pair, holds, lemma_find_is, lemma_push_one, lemma_slot_index, mentions, tracks,
    ManifoldState, NewContact, TrackedContact,
};
use crate::contact::RawContact;
use crate::kinematic::ContactKinematic;

verus! {

/// The pairs of features of the contacts of `s`, in their order.
pub open spec fn pair_seq(s: Seq<TrackedContact>) -> Seq<(FeatureId, FeatureId)> {
    Seq::new(s.len(), |i: int| (s[i].contact.feature1, s[i].contact.feature2))
}

/// The distinct pairs of features of `entries`, each at the place of its
/// first entry.
pub open spec fn distinct_pushed(entries: Seq<NewContact>) -> Seq<(FeatureId, FeatureId)>
    decreases entries.len(),
{
    if entries.len() == 0 {
        Seq::empty()
    } else {
        let prev = distinct_pushed(entries.drop_last());
        let p = (entries.last().contact.feature1, entries.last().contact.feature2);
        if prev.contains(p) {
            prev
        } else {
            prev.push(p)
        }
    }
}

/// A pair has a contact in `s` exactly when it is among the pairs of `s`.
pub proof fn lemma_holds_is_contains(s: Seq<TrackedContact>, f1: FeatureId, f2: FeatureId)
    ensures
        holds(s, f1, f2) == pair_seq(s).contains((f1, f2)),
{
    lemma_slot_index(s, f1, f2, 0);
    let i = find(s, f1, f2);
    if i < s.len() {
        assert(pair_seq(s)[i] == (f1, f2));
    } else if pair_seq(s).contains((f1, f2)) {
        let k = choose|k: int| 0 <= k < pair_seq(s).len() && pair_seq(s)[k] == (f1, f2);
        assert(has_pair(s[k], f1, f2));
    }
}

/// A pair is among the distinct pairs of `entries` exactly when an entry
/// belongs to it.
pub proof fn lemma_distinct_pushed_mentions(entries: Seq<NewContact>, f1: FeatureId, f2: FeatureId)
    ensures
        distinct_pushed(entries).contains((f1, f2)) == mentions(entries, f1, f2),
    decreases entries.len(),
{
    if entries.len() > 0 {
        let init = entries.drop_last();
        let prev = distinct_pushed(init);
        let last = entries.last();
        let p = (last.contact.feature1, last.contact.feature2);
        lemma_distinct_pushed_mentions(init, f1, f2);
        lemma_mentions_step(entries, f1, f2);
        let now = distinct_pushed(entries);
        if prev.contains((f1, f2)) {
            let k = choose|k: int| 0 <= k < prev.len() && prev[k] == (f1, f2);
            assert(now[k] == (f1, f2));
        } else if p == (f1, f2) {
            assert(now[now.len() - 1] == (f1, f2));
        } else if now.contains((f1, f2)) {
            let k = choose|k: int| 0 <= k < now.len() && now[k] == (f1, f2);
            assert(prev[k] == (f1, f2));
        }
    }
}

/// An entry of a list belongs to a pair when the last one does, or one of
/// those before it.
pub proof fn lemma_mentions_step(entries: Seq<NewContact>, f1: FeatureId, f2: FeatureId)
    requires
        entries.len() > 0,
    ensures
        mentions(entries, f1, f2) == (mentions(entries.drop_last(), f1, f2) || (entries.last().contact.feature1
            == f1 && entries.last().contact.feature2 == f2)),
{
    let init = entries.drop_last();
    if mentions(init, f1, f2) {
        let i = choose|i: int|
            0 <= i < init.len() && (#[trigger] init[i]).contact.feature1 == f1 && init[i].contact.feature2 == f2;
        assert(entries[i] == init[i]);
    }
    if mentions(entries, f1, f2) {
        let i = choose|i: int|
            0 <= i < entries.len() && (#[trigger] entries[i]).contact.feature1 == f1
                && entries[i].contact.feature2 == f2;
        if i < init.len() {
            assert(init[i] == entries[i]);
        }
    }
    if entries.last().contact.feature1 == f1 && entries.last().contact.feature2 == f2 {
        assert(entries[entries.len() - 1] == entries.last());
    }
}

/// What a run of pushes changes for one pair of features.
///
/// Where an entry belongs to the pair, the pair is in the current frame
/// afterwards and no longer in the frame before, and it has the slot that
/// it had in the current frame, or else in the frame before. Where none
/// does, the pair stays where it was, with its slot.
pub proof fn lemma_push_all(s: ManifoldState, ids: Ids, entries: Seq<NewContact>, g1: FeatureId, g2: FeatureId)
    requires
        s.wf(),
    ensures
        ({
            let r = s.push_all(ids, entries).0;
            &&& r.wf()
            &&& pair_seq(s.live) == Seq::<(FeatureId, FeatureId)>::empty() ==> pair_seq(r.live)
                == distinct_pushed(entries)
            &&& mentions(entries, g1, g2) ==> {
                &&& holds(r.live, g1, g2)
                &&& !holds(r.cached, g1, g2)
                &&& forall|id: usize| tracks(s.live, g1, g2, id) ==> tracks(r.live, g1, g2, id)
                &&& !holds(s.live, g1, g2) ==> forall|id: usize|
                    tracks(s.cached, g1, g2, id) ==> tracks(r.live, g1, g2, id)
            }
            &&& !mentions(entries, g1, g2) ==> {
                &&& holds(r.live, g1, g2) == holds(s.live, g1, g2)
                &&& holds(r.cached, g1, g2) == holds(s.cached, g1, g2)
                &&& forall|id: usize| tracks(r.live, g1, g2, id) == tracks(s.live, g1, g2, id)
                &&& forall|id: usize| tracks(r.cached, g1, g2, id) == tracks(s.cached, g1, g2, id)
            }
        }),
    decreases entries.len(),
{
    if entries.len() == 0 {
        assert(pair_seq(s.live).len() == 0 ==> pair_seq(s.live) =~= distinct_pushed(entries));
    } else {
        let init = entries.drop_last();
        let last = entries.last();
        let before = s.push_all(ids, init);
        let r = s.push_all(ids, entries).0;
        lemma_push_all(s, ids, init, g1, g2);
        lemma_push_one(before.0, before.1, last.contact, last.kinematic, g1, g2);
        lemma_mentions_step(entries, g1, g2);
        if pair_seq(s.live) == Seq::<(FeatureId, FeatureId)>::empty() {
            let f1 = last.contact.feature1;
            let f2 = last.contact.feature2;
            lemma_holds_is_contains(before.0.live, f1, f2);
            lemma_slot_index(before.0.live, f1, f2, 0);
            assert(pair_seq(r.live) =~= distinct_pushed(entries));
        }
    }
}

/// A pair of features that is pushed in two frames in a row keeps its
/// slot: where it has a contact with the slot `id`, and the next frame
/// pushes a contact of the same pair, that contact has the slot `id`.
pub proof fn lemma_repeated_pair_keeps_its_slot(
    s: ManifoldState,
    ids: Ids,
    entries: Seq<NewContact>,
    f1: FeatureId,
    f2: FeatureId,
    id: usize,
)
    requires
        s.wf(),
        tracks(s.live, f1, f2, id),
        mentions(entries, f1, f2),
    ensures
        tracks(s.frame(ids, entries).0.live, f1, f2, id),
{
    let started = s.begin_update(ids);
    lemma_push_all(started.0, started.1, entries, f1, f2);
}

/// A pair of features that a frame does not push has no contact after it,
/// whether it had one before or not.
pub proof fn lemma_pair_not_pushed_is_dropped(
    s: ManifoldState,
    ids: Ids,
    entries: Seq<NewContact>,
    f1: FeatureId,
    f2: FeatureId,
)
    requires
        s.wf(),
        !mentions(entries, f1, f2),
    ensures
        !holds(s.frame(ids, entries).0.live, f1, f2),
{
    let started = s.begin_update(ids);
    lemma_push_all(started.0, started.1, entries, f1, f2);
}

/// After a frame the manifold holds one contact for each distinct pair of
/// features that was pushed, in the order of their first pushes, and
/// nothing else.
pub proof fn lemma_one_contact_per_pushed_pair(s: ManifoldState, ids: Ids, entries: Seq<NewContact>)
    requires
        s.wf(),
    ensures
        s.frame(ids, entries).0.wf(),
        pair_seq(s.frame(ids, entries).0.live) == distinct_pushed(entries),
        s.frame(ids, entries).0.live.len() == distinct_pushed(entries).len(),
{
    let started = s.begin_update(ids);
    assert(pair_seq(started.0.live) =~= Seq::<(FeatureId, FeatureId)>::empty());
    let g = FeatureId::Vertex(0);
    lemma_push_all(started.0, started.1, entries, g, g);
    assert(pair_seq(s.frame(ids, entries).0.live).len() == s.frame(ids, entries).0.live.len());
}

/// Two frames in a row that push the same entries leave the same number
/// of contacts, for the same pairs of features in the same order, and in
/// the same slots.
pub proof fn lemma_same_entries_same_manifold(s: ManifoldState, ids: Ids, entries: Seq<NewContact>)
    requires
        s.wf(),
    ensures
        ({
            let first = s.frame(ids, entries);
            let second = first.0.frame(first.1, entries);
            &&& second.0.live.len() == first.0.live.len()
            &&& pair_seq(second.0.live) == pair_seq(first.0.live)
            &&& slots_match(first.0.live, second.0.live)
        }),
{
    let first = s.frame(ids, entries);
    let second = first.0.frame(first.1, entries);
    lemma_one_contact_per_pushed_pair(s, ids, entries);
    lemma_one_contact_per_pushed_pair(first.0, first.1, entries);
    let a = first.0.live;
    let b = second.0.live;
    assert forall|i: int| 0 <= i < a.len() implies (#[trigger] a[i]).id == b[i].id by {
        let f1 = a[i].contact.feature1;
        let f2 = a[i].contact.feature2;
        assert(pair_seq(a)[i] == (f1, f2));
        assert(pair_seq(b)[i] == (f1, f2));
        lemma_find_is(a, f1, f2, i);
        lemma_find_is(b, f1, f2, i);
        lemma_distinct_pushed_mentions(entries, f1, f2);
        lemma_repeated_pair_keeps_its_slot(first.0, first.1, entries, f1, f2, a[i].id);
    }
}

/// The contacts of `a` and of `b` have the same slots, place by place.
pub open spec fn slots_match(a: Seq<TrackedContact>, b: Seq<TrackedContact>) -> bool {
    a.len() == b.len() && forall|i: int| 0 <= i < a.len() ==> (#[trigger] a[i]).id == b[i].id
}

/// No two contacts of `s` have the same slot.
pub open spec fn distinct_slots(s: Seq<TrackedContact>) -> bool {
    forall|i: int, j: int| 0 <= i < j < s.len() ==> (#[trigger] s[i]).id != (#[trigger] s[j]).id
}

/// No contact of `a` has the slot of a contact of `b`.
pub open spec fn slots_apart(a: Seq<TrackedContact>, b: Seq<TrackedContact>) -> bool {
    forall|i: int, j: int| 0 <= i < a.len() && 0 <= j < b.len() ==> (#[trigger] a[i]).id != (#[trigger] b[j]).id
}

/// No contact of `s` has a slot that the allocator holds.
pub open spec fn slots_taken(s: Seq<TrackedContact>, ids: Ids) -> bool {
    forall|i: int, j: int|
        0 <= i < s.len() && 0 <= j < ids.recycled.len() ==> (#[trigger] s[i]).id != #[trigger] ids.recycled[j]
}

/// Every slot of `s` has been handed out.
pub open spec fn slots_known(s: Seq<TrackedContact>, ids: Ids) -> bool {
    forall|i: int| 0 <= i < s.len() ==> (#[trigger] s[i]).id < ids.next
}

/// The allocator holds no number twice, and none that it never handed out.
pub open spec fn allocator_sound(ids: Ids) -> bool {
    &&& forall|i: int, j: int|
        0 <= i < j < ids.recycled.len() ==> #[trigger] ids.recycled[i] != #[trigger] ids.recycled[j]
    &&& forall|i: int| 0 <= i < ids.recycled.len() ==> #[trigger] ids.recycled[i] < ids.next
}

/// The manifold and its allocator agree: every contact, of the current
/// frame or kept from the frame before, has a slot of its own, which the
/// allocator has handed out and does not hold.
pub open spec fn accounted(s: ManifoldState, ids: Ids) -> bool {
    &&& allocator_sound(ids)
    &&& distinct_slots(s.live)
    &&& distinct_slots(s.cached)
    &&& slots_apart(s.live, s.cached)
    &&& slots_taken(s.live, ids)
    &&& slots_taken(s.cached, ids)
    &&& slots_known(s.live, ids)
    &&& slots_known(s.cached, ids)
}

/// A push keeps the manifold and its allocator in agreement, and draws at
/// most one new number.
pub proof fn lemma_push_keeps_slots_distinct(
    s: ManifoldState,
    ids: Ids,
    contact: RawContact,
    kinematic: ContactKinematic,
)
    requires
        s.wf(),
        accounted(s, ids),
        ids.next < usize::MAX,
    ensures
        accounted(s.push(ids, contact, kinematic).0, s.push(ids, contact, kinematic).1),
        s.push(ids, contact, kinematic).1.next <= ids.next + 1,
{
    let r = s.push(ids, contact, kinematic);
    let i = find(s.live, contact.feature1, contact.feature2);
    let k = find(s.cached, contact.feature1, contact.feature2);
    lemma_slot_index(s.live, contact.feature1, contact.feature2, 0);
    lemma_slot_index(s.cached, contact.feature1, contact.feature2, 0);
    if i < s.live.len() {
        assert(distinct_slots(r.0.live));
        assert(slots_apart(r.0.live, r.0.cached));
        assert(slots_taken(r.0.live, r.1));
        assert(slots_known(r.0.live, r.1));
    } else if k < s.cached.len() {
        assert(distinct_slots(r.0.cached));
        assert(distinct_slots(r.0.live));
        assert(slots_apart(r.0.live, r.0.cached));
        assert(slots_taken(r.0.live, r.1));
        assert(slots_taken(r.0.cached, r.1));
        assert(slots_known(r.0.live, r.1));
        assert(slots_known(r.0.cached, r.1));
    } else {
        assert(r.1 == after_alloc(ids));
        assert(r.0.live == s.live.push(TrackedContact { id: alloc_id(ids), contact, kinematic }));
        if ids.recycled.len() > 0 {
            assert(alloc_id(ids) == ids.recycled[ids.recycled.len() - 1]);
        }
        assert(allocator_sound(r.1));
        assert(distinct_slots(r.0.live));
        assert(slots_apart(r.0.live, r.0.cached));
        assert(slots_taken(r.0.live, r.1));
        assert(slots_taken(r.0.cached, r.1));
        assert(slots_known(r.0.live, r.1));
        assert(slots_known(r.0.cached, r.1));
    }
}

/// A run of pushes keeps the manifold and its allocator in agreement.
pub proof fn lemma_push_all_keeps_slots_distinct(s: ManifoldState, ids: Ids, entries: Seq<NewContact>)
    requires
        s.wf(),
        accounted(s, ids),
        ids.next + entries.len() <= usize::MAX,
    ensures
        accounted(s.push_all(ids, entries).0, s.push_all(ids, entries).1),
        s.push_all(ids, entries).0.wf(),
        s.push_all(ids, entries).1.next <= ids.next + entries.len(),
    decreases entries.len(),
{
    if entries.len() > 0 {
        let init = entries.drop_last();
        let before = s.push_all(ids, init);
        lemma_push_all_keeps_slots_distinct(s, ids, init);
        lemma_push_keeps_slots_distinct(before.0, before.1, entries.last().contact, entries.last().kinematic);
        lemma_push_one(
            before.0,
            before.1,
            entries.last().contact,
            entries.last().kinematic,
            entries.last().contact.feature1,
            entries.last().contact.feature2,
        );
    }
}

/// A frame keeps the manifold and its allocator in agreement: after it no
/// two contacts share a slot, and no slot of a contact is free to be
/// handed out again. This holds as long as the allocator is not
/// exhausted.
pub proof fn lemma_frame_keeps_slots_distinct(s: ManifoldState, ids: Ids, entries: Seq<NewContact>)
    requires
        s.wf(),
        accounted(s, ids),
        ids.next + entries.len() <= usize::MAX,
    ensures
        accounted(s.frame(ids, entries).0, s.frame(ids, entries).1),
        distinct_slots(s.frame(ids, entries).0.live),
{
    let started = s.begin_update(ids);
    let n = ids.recycled.len() as int;
    assert(allocator_sound(started.1)) by {
        assert forall|i: int, j: int| 0 <= i < j < started.1.recycled.len() implies #[trigger] started.1.recycled[i]
            != #[trigger] started.1.recycled[j] by {
            if i >= n {
                assert(started.1.recycled[i] == s.cached[i - n].id);
            } else {
                assert(started.1.recycled[i] == ids.recycled[i]);
            }
            if j >= n {
                assert(started.1.recycled[j] == s.cached[j - n].id);
            } else {
                assert(started.1.recycled[j] == ids.recycled[j]);
            }
        }
        assert forall|i: int| 0 <= i < started.1.recycled.len() implies #[trigger] started.1.recycled[i]
            < started.1.next by {
            if i >= n {
                assert(started.1.recycled[i] == s.cached[i - n].id);
            } else {
                assert(started.1.recycled[i] == ids.recycled[i]);
            }
        }
    }
    assert(slots_taken(started.0.cached, started.1)) by {
        assert forall|i: int, j: int|
            0 <= i < started.0.cached.len() && 0 <= j < started.1.recycled.len() implies (
        #[trigger] started.0.cached[i]).id != #[trigger] started.1.recycled[j] by {
            if j >= n {
                assert(started.1.recycled[j] == s.cached[j - n].id);
            } else {
                assert(started.1.recycled[j] == ids.recycled[j]);
            }
        }
    }
    assert(accounted(started.0, started.1));
    lemma_push_all_keeps_slots_distinct(started.0, started.1, entries);
}

} // verus!
