//! The manifold generator for two shapes with a support mapping.

use vstd::prelude::*;
use crate::allocator::{IdAllocator, Ids};
use crate::arith::Point;
use crate::clip::{clip_polyfaces, clip_spec};
use crate::clip3d::ClippingCache;
use crate::contact::{RawContact, Witness};
use crate::feature::Dimension;
use crate::kinematic::{contact_kinematic, contact_kinematic_spec, ContactKinematic, KinematicError};
use crate::feature::FeatureId;
use crate::frames::{
    lemma_distinct_pushed_mentions, lemma_holds_is_contains, lemma_one_contact_per_pushed_pair,
    lemma_same_entries_same_manifold, pair_seq, slots_match,
};
use crate::manifold::{holds, mentions, ContactManifold, ManifoldState, NewContact};
use crate::polyface::ConvexPolyface;

verus! {

/// The closest points of two shapes: one point on each, the direction from
/// the first to the second, and how deep they overlap. A depth above zero
/// is a penetration; a depth of zero or less is a gap within the margin.
#[derive(Clone, Copy, Debug, PartialEq, Eq, Structural)]
pub struct Contact {
    pub world1: Point,
    pub world2: Point,
    pub normal: Point,
    pub depth: i64,
}

/// What the closest-point query between the two shapes found.
#[derive(Clone, Copy, Debug, PartialEq, Eq, Structural)]
pub enum QueryResult {
    /// The shapes touch, or are closer than the margin: the closest
    /// points, and the direction to start the next query with.
    Projection(Contact, Point),
    /// The shapes are apart: a direction that separates them.
    NoIntersection(Point),
    /// The query could not decide.
    Indeterminate,
}

/// Which feature of each shape the generator needs next.
#[derive(Clone, Copy, Debug, PartialEq, Eq, Structural)]
pub enum FeatureRequest {
    /// The face most aligned with the contact direction.
    SupportFace,
    /// The feature within the angular tolerance of the contact direction.
    SupportFeature,
    /// None: the query found no contact.
    Nothing,
}

/// What a generator remembers between updates.
pub struct GeneratorState {
    pub dim: Dimension,
    pub last_dir: Option<Point>,
    pub optimal_dir: Option<Point>,
    pub manifold: ManifoldState,
    pub replaced: nat,
}

/// Generates the persistent contact manifold between two convex shapes.
#[derive(Clone, Debug)]
pub struct SupportMapSupportMapManifoldGenerator {
    dim: Dimension,
    last_gjk_dir: Option<Point>,
    last_optimal_dir: Option<Point>,
    contact_manifold: ContactManifold,
    clip_cache: ClippingCache,
    replaced: usize,
}

/// The feature to ask each shape for after a query.
pub open spec fn feature_request_spec(query: QueryResult) -> FeatureRequest {
    match query {
        QueryResult::Projection(c, _) => if c.depth > 0 {
            FeatureRequest::SupportFace
        } else {
            FeatureRequest::SupportFeature
        },
        _ => FeatureRequest::Nothing,
    }
}

/// The single contact that stands for the closest points where clipping
/// gives none. It carries the identifiers of the two whole features.
pub open spec fn witness_contact(face1: &ConvexPolyface, face2: &ConvexPolyface, c: Contact) -> RawContact {
    RawContact {
        on1: Witness::At { point: c.world1 },
        on2: Witness::At { point: c.world2 },
        feature1: face1.feature_id,
        feature2: face2.feature_id,
    }
}

/// The raw contacts of an update: those of the clipping, or else the
/// contact of the closest points alone.
pub open spec fn raw_contacts_spec(dim: Dimension, face1: &ConvexPolyface, face2: &ConvexPolyface, c: Contact) -> Seq<
    RawContact,
> {
    let clipped = clip_spec(dim, face1, face2, c.normal);
    if clipped.len() == 0 {
        seq![witness_contact(face1, face2, c)]
    } else {
        clipped
    }
}

/// Every raw contact with its classification, or the error of the first
/// one that has none.
pub open spec fn classify_all_spec(
    dim: Dimension,
    face1: &ConvexPolyface,
    face2: &ConvexPolyface,
    raws: Seq<RawContact>,
) -> Result<Seq<NewContact>, KinematicError>
    decreases raws.len(),
{
    if raws.len() == 0 {
        Ok(Seq::empty())
    } else {
        match classify_all_spec(dim, face1, face2, raws.drop_last()) {
            Err(e) => Err(e),
            Ok(prev) => match contact_kinematic_spec(
                dim,
                face1,
                raws.last().feature1,
                face2,
                raws.last().feature2,
            ) {
                Err(e) => Err(e),
                Ok(kinematic) => Ok(prev.push(NewContact { contact: raws.last(), kinematic })),
            },
        }
    }
}

/// How many of the pushes of `entries` take the place of a contact.
pub open spec fn replacements(s: ManifoldState, ids: Ids, entries: Seq<NewContact>) -> nat
    decreases entries.len(),
{
    if entries.len() == 0 {
        0
    } else {
        let before = s.push_all(ids, entries.drop_last());
        let last = before.0.push(before.1, entries.last().contact, entries.last().kinematic);
        replacements(s, ids, entries.drop_last()) + (if last.2 {
            1nat
        } else {
            0nat
        })
    }
}

/// The state after an update that found the entries `entries` and the
/// direction `dir`: a whole frame of the manifold.
pub open spec fn after_frame(s: GeneratorState, ids: Ids, dir: Point, entries: Seq<NewContact>) -> (
    GeneratorState,
    Ids,
) {
    let started = s.manifold.begin_update(ids);
    let done = s.manifold.frame(ids, entries);
    (
        GeneratorState {
            dim: s.dim,
            last_dir: Some(dir),
            optimal_dir: s.optimal_dir,
            manifold: done.0,
            replaced: replacements(started.0, started.1, entries),
        },
        done.1,
    )
}

/// What an update returns, and the state that it leaves.
///
/// Without a query the pair of shapes is not for this generator: nothing
/// changes and the answer is `false`. An undecided query changes nothing
/// either. Shapes that are apart leave an empty manifold. Closest points
/// give a frame of the classified raw contacts, unless a contact has no
/// classification: then nothing changes and the error is returned.
pub open spec fn update_spec(
    s: GeneratorState,
    ids: Ids,
    query: Option<QueryResult>,
    face1: &ConvexPolyface,
    face2: &ConvexPolyface,
) -> (Result<bool, KinematicError>, GeneratorState, Ids) {
    match query {
        None => (Ok(false), s, ids),
        Some(QueryResult::Indeterminate) => (Ok(true), s, ids),
        Some(QueryResult::NoIntersection(dir)) => {
            let r = after_frame(s, ids, dir, Seq::empty());
            (Ok(true), r.0, r.1)
        },
        Some(QueryResult::Projection(c, dir)) => match classify_all_spec(
            s.dim,
            face1,
            face2,
            raw_contacts_spec(s.dim, face1, face2, c),
        ) {
            Err(e) => (Err(e), s, ids),
            Ok(entries) => {
                let r = after_frame(s, ids, dir, entries);
                (Ok(true), r.0, r.1)
            },
        },
    }
}

/// Classifies every raw contact between the two features.
pub fn classify_all(dim: Dimension, face1: &ConvexPolyface, face2: &ConvexPolyface, raws: &Vec<RawContact>) -> (r:
    Result<Vec<NewContact>, KinematicError>)
    requires
        face1.wf(),
        face2.wf(),
    ensures
        match r {
            Ok(entries) => classify_all_spec(dim, face1, face2, raws@) == Ok::<
                Seq<NewContact>,
                KinematicError,
            >(entries@),
            Err(e) => classify_all_spec(dim, face1, face2, raws@) == Err::<Seq<NewContact>, KinematicError>(e),
        },
{
    let mut entries: Vec<NewContact> = Vec::new();
    let n: usize = raws.len();
    let mut i: usize = 0;
    assert(raws@.take(0) =~= Seq::<RawContact>::empty());
    while i < n
        invariant
            0 <= i <= n,
            n == raws@.len(),
            face1.wf(),
            face2.wf(),
            classify_all_spec(dim, face1, face2, raws@.take(i as int)) == Ok::<Seq<NewContact>, KinematicError>(
                entries@,
            ),
        decreases n - i,
    {
        let c: RawContact = raws[i];
        assert(raws@.take(i + 1).drop_last() =~= raws@.take(i as int));
        assert(raws@.take(i + 1).last() == c);
        match contact_kinematic(dim, face1, c.feature1, face2, c.feature2) {
            Err(e) => {
                proof {
                    lemma_classify_error_stays(dim, face1, face2, raws@, i + 1);
                }
                return Err(e);
            },
            Ok(kinematic) => {
                entries.push(NewContact { contact: c, kinematic });
            },
        }
        i += 1;
    }
    assert(raws@.take(n as int) =~= raws@);
    Ok(entries)
}

/// Once the first `upto` raw contacts have an error, the whole list has
/// the same error.
pub proof fn lemma_classify_error_stays(
    dim: Dimension,
    face1: &ConvexPolyface,
    face2: &ConvexPolyface,
    raws: Seq<RawContact>,
    upto: int,
)
    requires
        0 <= upto <= raws.len(),
        classify_all_spec(dim, face1, face2, raws.take(upto)) is Err,
    ensures
        classify_all_spec(dim, face1, face2, raws) == classify_all_spec(dim, face1, face2, raws.take(upto)),
    decreases raws.len() - upto,
{
    if upto < raws.len() {
        assert(raws.take(upto + 1).drop_last() =~= raws.take(upto));
        lemma_classify_error_stays(dim, face1, face2, raws, upto + 1);
    } else {
        assert(raws.take(upto) =~= raws);
    }
}

impl View for SupportMapSupportMapManifoldGenerator {
    type V = GeneratorState;

    closed spec fn view(&self) -> GeneratorState {
        GeneratorState {
            dim: self.dim,
            last_dir: self.last_gjk_dir,
            optimal_dir: self.last_optimal_dir,
            manifold: self.contact_manifold@,
            replaced: self.replaced as nat,
        }
    }
}

impl SupportMapSupportMapManifoldGenerator {
    /// A generator for a space of dimension `dim`, with an empty manifold
    /// and no direction to start from.
    pub fn new(dim: Dimension) -> (g: SupportMapSupportMapManifoldGenerator)
        ensures
            g@ == (GeneratorState {
                dim,
                last_dir: None,
                optimal_dir: None,
                manifold: ManifoldState { live: Seq::empty(), cached: Seq::empty() },
                replaced: 0,
            }),
            g@.manifold.wf(),
    {
        SupportMapSupportMapManifoldGenerator {
            dim,
            last_gjk_dir: None,
            last_optimal_dir: None,
            contact_manifold: ContactManifold::new(),
            clip_cache: ClippingCache::new(),
            replaced: 0,
        }
    }

    /// The dimension of the space.
    pub fn dimension(&self) -> (d: Dimension)
        ensures
            d == self@.dim,
    {
        self.dim
    }

    /// The direction that the next closest-point query starts from.
    pub fn last_direction(&self) -> (d: Option<Point>)
        ensures
            d == self@.last_dir,
    {
        self.last_gjk_dir
    }

    /// The direction along which the last manifold was best, where one is
    /// known. No update sets it.
    pub fn last_optimal_direction(&self) -> (d: Option<Point>)
        ensures
            d == self@.optimal_dir,
    {
        self.last_optimal_dir
    }

    /// How many contacts of the last frame took the place of another.
    pub fn num_replaced(&self) -> (n: usize)
        ensures
            n == self@.replaced,
    {
        self.replaced
    }

    /// Tells which feature to ask each shape for after a query.
    pub fn feature_request(query: &QueryResult) -> (r: FeatureRequest)
        ensures
            r == feature_request_spec(*query),
    {
        match query {
            QueryResult::Projection(c, _) => {
                if c.depth > 0 {
                    FeatureRequest::SupportFace
                } else {
                    FeatureRequest::SupportFeature
                }
            },
            _ => FeatureRequest::Nothing,
        }
    }

    /// Runs a frame of the manifold with the given entries.
    fn save_new_contacts_as_contact_manifold(&mut self, entries: &Vec<NewContact>, ids: &mut IdAllocator)
        ensures
            final(self)@.dim == old(self)@.dim,
            final(self)@.last_dir == old(self)@.last_dir,
            final(self)@.optimal_dir == old(self)@.optimal_dir,
            (final(self)@.manifold, final(ids)@) == old(self)@.manifold.frame(old(ids)@, entries@),
            final(self)@.replaced == replacements(
                old(self)@.manifold.begin_update(old(ids)@).0,
                old(self)@.manifold.begin_update(old(ids)@).1,
                entries@,
            ),
            old(self)@.manifold.wf() ==> final(self)@.manifold.wf(),
    {
        self.contact_manifold.save_cache_and_clear(ids);
        let ghost started = (self.contact_manifold@, ids@);
        let n: usize = entries.len();
        let mut count: usize = 0;
        let mut i: usize = 0;
        assert(entries@.take(0) =~= Seq::<NewContact>::empty());
        while i < n
            invariant
                0 <= i <= n,
                n == entries@.len(),
                count <= i,
                self.dim == old(self).dim,
                self.last_gjk_dir == old(self).last_gjk_dir,
                self.last_optimal_dir == old(self).last_optimal_dir,
                (self.contact_manifold@, ids@) == started.0.push_all(started.1, entries@.take(i as int)),
                count == replacements(started.0, started.1, entries@.take(i as int)),
                started.0.wf() ==> self.contact_manifold@.wf(),
            decreases n - i,
        {
            assert(entries@.take(i + 1).drop_last() =~= entries@.take(i as int));
            assert(entries@.take(i + 1).last() == entries@[i as int]);
            let e: NewContact = entries[i];
            if self.contact_manifold.push(e.contact, e.kinematic, ids) {
                count += 1;
            }
            i += 1;
        }
        assert(entries@.take(n as int) =~= entries@);
        self.replaced = count;
    }

    /// Updates the manifold after a closest-point query.
    ///
    /// `query` is `None` where one of the shapes has no support mapping.
    /// `face1` and `face2` are the features that the shapes gave for
    /// `feature_request(query)`; they are read only after a projection.
    pub fn update(
        &mut self,
        query: Option<QueryResult>,
        face1: &ConvexPolyface,
        face2: &ConvexPolyface,
        ids: &mut IdAllocator,
    ) -> (r: Result<bool, KinematicError>)
        requires
            query matches Some(QueryResult::Projection(c, _)) ==> face1.wf() && face2.wf() && c.normal.in_range(),
        ensures
            (r, final(self)@, final(ids)@) == update_spec(old(self)@, old(ids)@, query, face1, face2),
            old(self)@.manifold.wf() ==> final(self)@.manifold.wf(),
    {
        match query {
            None => Ok(false),
            Some(QueryResult::Indeterminate) => Ok(true),
            Some(QueryResult::NoIntersection(dir)) => {
                let entries: Vec<NewContact> = Vec::new();
                self.last_gjk_dir = Some(dir);
                self.save_new_contacts_as_contact_manifold(&entries, ids);
                assert(entries@ =~= Seq::<NewContact>::empty());
                Ok(true)
            },
            Some(QueryResult::Projection(c, dir)) => {
                let mut raws: Vec<RawContact> = clip_polyfaces(self.dim, face1, face2, &c.normal, &mut self.clip_cache);
                if raws.len() == 0 {
                    raws.push(
                        RawContact {
                            on1: Witness::At { point: c.world1 },
                            on2: Witness::At { point: c.world2 },
                            feature1: face1.feature_id,
                            feature2: face2.feature_id,
                        },
                    );
                    assert(raws@ =~= seq![witness_contact(face1, face2, c)]);
                }
                match classify_all(self.dim, face1, face2, &raws) {
                    Err(e) => Err(e),
                    Ok(entries) => {
                        self.last_gjk_dir = Some(dir);
                        self.save_new_contacts_as_contact_manifold(&entries, ids);
                        Ok(true)
                    },
                }
            },
        }
    }

    /// The number of contacts of the manifold.
    pub fn num_contacts(&self) -> (n: usize)
        ensures
            n == self@.manifold.live.len(),
    {
        self.contact_manifold.len()
    }

    /// The manifold, where it has a contact.
    pub fn contacts(&self) -> (r: Option<&ContactManifold>)
        ensures
            r is Some == (self@.manifold.live.len() != 0),
            r matches Some(m) ==> m@ == self@.manifold,
    {
        if self.contact_manifold.len() != 0 {
            Some(&self.contact_manifold)
        } else {
            None
        }
    }
}

/// Two updates in a row with the same query and the same features return
/// the same answer and leave the same number of contacts, for the same
/// pairs of features in the same order, and in the same slots.
pub proof fn lemma_update_twice_gives_same_manifold(
    s: GeneratorState,
    ids: Ids,
    query: Option<QueryResult>,
    face1: &ConvexPolyface,
    face2: &ConvexPolyface,
)
    requires
        s.manifold.wf(),
    ensures
        ({
            let first = update_spec(s, ids, query, face1, face2);
            let second = update_spec(first.1, first.2, query, face1, face2);
            &&& second.0 == first.0
            &&& second.1.manifold.live.len() == first.1.manifold.live.len()
            &&& pair_seq(second.1.manifold.live) == pair_seq(first.1.manifold.live)
            &&& slots_match(first.1.manifold.live, second.1.manifold.live)
        }),
{
    match query {
        Some(QueryResult::NoIntersection(dir)) => {
            lemma_same_entries_same_manifold(s.manifold, ids, Seq::empty());
        },
        Some(QueryResult::Projection(c, dir)) => {
            match classify_all_spec(s.dim, face1, face2, raw_contacts_spec(s.dim, face1, face2, c)) {
                Ok(entries) => {
                    lemma_same_entries_same_manifold(s.manifold, ids, entries);
                },
                Err(_) => {},
            }
        },
        _ => {},
    }
}

/// Some raw contact of `raws` belongs to the pair `(g1, g2)`.
pub open spec fn produced(raws: Seq<RawContact>, g1: FeatureId, g2: FeatureId) -> bool {
    exists|k: int| 0 <= k < raws.len() && (#[trigger] raws[k]).feature1 == g1 && raws[k].feature2 == g2
}

/// Where every raw contact has a classification, the entries are the raw
/// contacts in their order, each with its own classification.
pub proof fn lemma_classified_entries(
    dim: Dimension,
    face1: &ConvexPolyface,
    face2: &ConvexPolyface,
    raws: Seq<RawContact>,
)
    requires
        classify_all_spec(dim, face1, face2, raws) is Ok,
    ensures
        ({
            let entries = classify_all_spec(dim, face1, face2, raws)->Ok_0;
            &&& entries.len() == raws.len()
            &&& forall|k: int|
                0 <= k < raws.len() ==> (#[trigger] entries[k]).contact == raws[k] && Ok::<
                    ContactKinematic,
                    KinematicError,
                >(entries[k].kinematic) == contact_kinematic_spec(
                    dim,
                    face1,
                    raws[k].feature1,
                    face2,
                    raws[k].feature2,
                )
        }),
    decreases raws.len(),
{
    if raws.len() > 0 {
        lemma_classified_entries(dim, face1, face2, raws.drop_last());
    }
}

/// After an update that found closest points, the manifold holds a
/// contact for a pair of features exactly when this update produced a raw
/// contact for that pair, by clipping or else from the closest points
/// alone. What an earlier update left for another pair is gone.
pub proof fn lemma_update_keeps_produced_pairs_only(
    s: GeneratorState,
    ids: Ids,
    c: Contact,
    dir: Point,
    face1: &ConvexPolyface,
    face2: &ConvexPolyface,
    g1: FeatureId,
    g2: FeatureId,
)
    requires
        s.manifold.wf(),
        update_spec(s, ids, Some(QueryResult::Projection(c, dir)), face1, face2).0 is Ok,
    ensures
        holds(update_spec(s, ids, Some(QueryResult::Projection(c, dir)), face1, face2).1.manifold.live, g1, g2)
            == produced(raw_contacts_spec(s.dim, face1, face2, c), g1, g2),
{
    let raws = raw_contacts_spec(s.dim, face1, face2, c);
    let entries = classify_all_spec(s.dim, face1, face2, raws)->Ok_0;
    let live = s.manifold.frame(ids, entries).0.live;
    lemma_classified_entries(s.dim, face1, face2, raws);
    lemma_one_contact_per_pushed_pair(s.manifold, ids, entries);
    lemma_holds_is_contains(live, g1, g2);
    lemma_distinct_pushed_mentions(entries, g1, g2);
    if mentions(entries, g1, g2) {
        let k = choose|k: int|
            0 <= k < entries.len() && (#[trigger] entries[k]).contact.feature1 == g1 && entries[k].contact.feature2
                == g2;
        assert(raws[k].feature1 == g1 && raws[k].feature2 == g2);
    }
    if produced(raws, g1, g2) {
        let k = choose|k: int| 0 <= k < raws.len() && (#[trigger] raws[k]).feature1 == g1 && raws[k].feature2 == g2;
        assert(entries[k].contact.feature1 == g1 && entries[k].contact.feature2 == g2);
    }
}

} // verus!
