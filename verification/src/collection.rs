//! A verified in-memory model of one remote collection.
//!
//! The remote service owns storage, scoring and ranking; the program only
//! depends on the service's write and filter semantics, and this model
//! states them: an upsert writes each point by identifier (overwriting, not
//! duplicating), a whole batch is rejected when any vector's component
//! count differs from the declared dimensionality, and a filtered search
//! returns only points whose payload satisfies the filter, up to the
//! requested limit. Stored points keep their insertion order; scoring order
//! is the service's own and nothing here depends on it.

use vstd::prelude::*;

use crate::payload::{payload_matches, MatchCondition, MatchConditionView};
use crate::point::{
    all_dims_ok, points_view, validate_dimensions, DimensionError, PointRecord, PointView,
};

verus! {

/// The distance metric a collection is declared with. The program only ever
/// uses cosine similarity.
#[derive(Clone, Copy, Debug, PartialEq, Eq, Structural)]
pub enum Metric {
    Cosine,
}

/// Whether no two points of a stored sequence share an identifier.
pub open spec fn unique_ids(ps: Seq<PointView>) -> bool {
    forall|i: int, j: int|
        0 <= i < j < ps.len() ==> (#[trigger] ps[i]).id != (#[trigger] ps[j]).id
}

/// Whether some stored point carries the given identifier.
pub open spec fn has_id(ps: Seq<PointView>, id: u64) -> bool {
    exists|i: int| 0 <= i < ps.len() && (#[trigger] ps[i]).id == id
}

/// The effect of writing one point: an existing point with the same
/// identifier is overwritten in place; otherwise the point is appended.
pub open spec fn upsert_one(stored: Seq<PointView>, p: PointView) -> Seq<PointView> {
    if has_id(stored, p.id) {
        let i = choose|i: int| 0 <= i < stored.len() && (#[trigger] stored[i]).id == p.id;
        stored.update(i, p)
    } else {
        stored.push(p)
    }
}

/// The effect of writing a whole batch, first point first.
pub open spec fn upsert_all(stored: Seq<PointView>, incoming: Seq<PointView>) -> Seq<PointView>
    decreases incoming.len(),
{
    if incoming.len() == 0 {
        stored
    } else {
        upsert_one(upsert_all(stored, incoming.drop_last()), incoming.last())
    }
}

/// The identifiers of the stored points whose payload satisfies the filter,
/// in storage order.
pub open spec fn matching_ids(ps: Seq<PointView>, c: MatchConditionView) -> Seq<u64>
    decreases ps.len(),
{
    if ps.len() == 0 {
        Seq::<u64>::empty()
    } else if payload_matches(ps.last().payload, c) {
        matching_ids(ps.drop_last(), c).push(ps.last().id)
    } else {
        matching_ids(ps.drop_last(), c)
    }
}

/// A sequence cut down to at most `limit` leading elements.
pub open spec fn truncated_ids(s: Seq<u64>, limit: int) -> Seq<u64> {
    if limit >= s.len() {
        s
    } else {
        s.take(limit)
    }
}

/// One named collection: declared dimensionality and metric, and the points
/// written so far.
#[derive(Debug)]
pub struct CollectionModel {
    pub name: String,
    pub dims: usize,
    pub metric: Metric,
    pub points: Vec<PointRecord>,
}

impl CollectionModel {
    /// Well-formedness: a positive declared dimensionality, no duplicate
    /// identifiers, and every stored vector of the declared length.
    pub open spec fn inv(self) -> bool {
        &&& self.dims >= 1
        &&& unique_ids(points_view(self.points@))
        &&& all_dims_ok(points_view(self.points@), self.dims as nat)
    }

    /// A freshly created collection: the declared parameters, zero points.
    pub fn new(name: String, dims: usize, metric: Metric) -> (c: Self)
        requires
            dims >= 1,
        ensures
            c.inv(),
            c.name@ == name@,
            c.dims == dims,
            c.metric == metric,
            c.points@.len() == 0,
    {
        CollectionModel { name, dims, metric, points: Vec::new() }
    }

    /// How many points the collection holds.
    pub fn point_count(&self) -> (n: usize)
        ensures
            n == self.points@.len(),
    {
        self.points.len()
    }

    /// Writes a batch of points by identifier. The whole batch is rejected,
    /// and the collection left untouched, when any vector's component count
    /// differs from the declared dimensionality; no vector is ever
    /// truncated or padded.
    pub fn upsert(&mut self, batch: Vec<PointRecord>) -> (r: Result<(), DimensionError>)
        requires
            old(self).inv(),
        ensures
            final(self).inv(),
            final(self).name == old(self).name,
            final(self).dims == old(self).dims,
            final(self).metric == old(self).metric,
            r is Ok <==> all_dims_ok(points_view(batch@), old(self).dims as nat),
            r is Ok ==> points_view(final(self).points@) == upsert_all(
                points_view(old(self).points@),
                points_view(batch@),
            ),
            r is Err ==> *final(self) == *old(self),
            r matches Err(e) ==> {
                &&& e.index < batch@.len()
                &&& points_view(batch@)[e.index as int].vector.len() == e.found
                &&& e.found != old(self).dims
                &&& e.expected == old(self).dims
            },
    {
        let dims = self.dims;
        match validate_dimensions(&batch, dims) {
            Err(e) => {
                return Err(e);
            },
            Ok(()) => {},
        }
        let ghost batch0: Seq<PointRecord> = batch@;
        let mut batch = batch;
        let total = batch.len();
        let mut k: usize = 0;
        while k < total
            invariant
                total == batch0.len(),
                k <= total,
                batch@ == batch0.subrange(k as int, total as int),
                all_dims_ok(points_view(batch0), old(self).dims as nat),
                self.name == old(self).name,
                self.dims == old(self).dims,
                self.metric == old(self).metric,
                self.inv(),
                points_view(self.points@) == upsert_all(
                    points_view(old(self).points@),
                    points_view(batch0).take(k as int),
                ),
            decreases total - k,
        {
            assert(batch@.len() > 0);
            let p = batch.remove(0);
            assert(p == batch0[k as int]);
            proof {
                assert(batch@ =~= batch0.subrange(k + 1, total as int));
            }
            let ghost before: Seq<PointView> = points_view(self.points@);
            let ghost pv: PointView = p@;
            assert(pv == points_view(batch0)[k as int]);
            assert(pv.vector.len() == self.dims);
            match find_index(&self.points, p.id) {
                Some(j) => {
                    proof {
                        let w = choose|i: int|
                            0 <= i < before.len() && (#[trigger] before[i]).id == pv.id;
                        assert(before[j as int].id == pv.id);
                        if w != j {
                            assert(before[w].id != before[j as int].id);
                        }
                        assert(w == j);
                    }
                    self.points[j] = p;
                    proof {
                        assert(points_view(self.points@) =~= before.update(j as int, pv));
                        assert(points_view(self.points@) == upsert_one(before, pv));
                        lemma_upsert_one_wf(before, pv, old(self).dims as nat);
                    }
                },
                None => {
                    self.points.push(p);
                    proof {
                        assert(points_view(self.points@) =~= before.push(pv));
                        assert(points_view(self.points@) == upsert_one(before, pv));
                        lemma_upsert_one_wf(before, pv, old(self).dims as nat);
                    }
                },
            }
            proof {
                let taken = points_view(batch0).take(k + 1);
                assert(taken.drop_last() =~= points_view(batch0).take(k as int));
                assert(taken.last() == pv);
                assert(upsert_all(points_view(old(self).points@), taken) == upsert_one(
                    before,
                    pv,
                ));
            }
            k = k + 1;
        }
        proof {
            assert(points_view(batch0).take(total as int) =~= points_view(batch0));
        }
        Ok(())
    }

    /// Runs the filter over the stored points: the identifiers of all
    /// matching points in storage order, cut down to at most `limit`
    /// results.
    pub fn search_filtered(&self, c: &MatchCondition, limit: usize) -> (r: Vec<u64>)
        ensures
            r@ == truncated_ids(matching_ids(points_view(self.points@), c@), limit as int),
    {
        let mut out: Vec<u64> = Vec::new();
        let n = self.points.len();
        let mut i: usize = 0;
        while i < n
            invariant
                n == self.points@.len(),
                i <= n,
                out@ == matching_ids(points_view(self.points@).take(i as int), c@),
            decreases n - i,
        {
            let ghost taken = points_view(self.points@).take(i + 1);
            proof {
                assert(taken.drop_last() =~= points_view(self.points@).take(i as int));
                assert(taken.last() == points_view(self.points@)[i as int]);
            }
            if crate::payload::matches_condition(&self.points[i].payload, c) {
                out.push(self.points[i].id);
            }
            i = i + 1;
        }
        proof {
            assert(points_view(self.points@).take(n as int) =~= points_view(self.points@));
        }
        out.truncate(limit);
        out
    }
}

/// Whether the service holds a collection under the given name.
pub open spec fn has_collection(cs: Seq<CollectionModel>, name: Seq<char>) -> bool {
    exists|i: int| 0 <= i < cs.len() && (#[trigger] cs[i]).name@ == name
}

/// The collections a service holds, each under a distinct name.
#[derive(Debug)]
pub struct BackendModel {
    pub collections: Vec<CollectionModel>,
}

impl BackendModel {
    /// Well-formedness: distinct names, each collection well-formed.
    pub open spec fn inv(self) -> bool {
        &&& forall|i: int, j: int|
            0 <= i < j < self.collections@.len() ==> (#[trigger] self.collections@[i]).name@ != (
            #[trigger] self.collections@[j]).name@
        &&& forall|i: int|
            0 <= i < self.collections@.len() ==> (#[trigger] self.collections@[i]).inv()
    }

    /// A service holding no collection.
    pub fn new() -> (b: Self)
        ensures
            b.inv(),
            b.collections@.len() == 0,
    {
        BackendModel { collections: Vec::new() }
    }

    /// The existence check: whether a collection of the given name is held.
    pub fn collection_exists(&self, name: &String) -> (r: bool)
        ensures
            r == has_collection(self.collections@, name@),
    {
        let n = self.collections.len();
        let mut i: usize = 0;
        while i < n
            invariant
                n == self.collections@.len(),
                i <= n,
                forall|j: int|
                    0 <= j < i ==> (#[trigger] self.collections@[j]).name@ != name@,
            decreases n - i,
        {
            if self.collections[i].name.clone() == name.clone() {
                assert(self.collections@[i as int].name@ == name@);
                return true;
            }
            i = i + 1;
        }
        false
    }

    /// The creation call: adds a collection of the given name with the
    /// requested dimensionality and metric, holding zero points; every
    /// other collection is left untouched.
    pub fn create_collection(&mut self, name: String, dims: usize, metric: Metric)
        requires
            old(self).inv(),
            dims >= 1,
            !has_collection(old(self).collections@, name@),
        ensures
            final(self).inv(),
            has_collection(final(self).collections@, name@),
            final(self).collections@.len() == old(self).collections@.len() + 1,
            final(self).collections@.subrange(0, old(self).collections@.len() as int) == old(
                self,
            ).collections@,
            final(self).collections@.last().name@ == name@,
            final(self).collections@.last().dims == dims,
            final(self).collections@.last().metric == metric,
            final(self).collections@.last().points@.len() == 0,
    {
        let ghost name0: Seq<char> = name@;
        let c = CollectionModel::new(name, dims, metric);
        self.collections.push(c);
        proof {
            let cs = self.collections@;
            let n = cs.len() - 1;
            assert(cs[n].name@ == name0);
            assert(cs.subrange(0, n) =~= old(self).collections@);
            assert forall|i: int, j: int| 0 <= i < j < cs.len() implies (#[trigger] cs[i]).name@
                != (#[trigger] cs[j]).name@ by {
                if j == n {
                    assert(!(cs[i].name@ == name0));
                }
            }
        }
    }

    /// The ensure step exactly as the program performs it: one existence
    /// check, then one creation call when and only when the collection was
    /// absent; an existing collection is left untouched whatever its
    /// configuration. Either way the collection is held afterwards.
    pub fn ensure_collection(&mut self, name: &String, dims: usize, metric: Metric) -> (created:
        bool)
        requires
            old(self).inv(),
            dims >= 1,
        ensures
            final(self).inv(),
            has_collection(final(self).collections@, name@),
            created <==> !has_collection(old(self).collections@, name@),
            !created ==> *final(self) == *old(self),
            created ==> final(self).collections@.len() == old(self).collections@.len() + 1
                && final(self).collections@.subrange(
                0,
                old(self).collections@.len() as int,
            ) == old(self).collections@ && final(self).collections@.last().name@ == name@
                && final(self).collections@.last().dims == dims
                && final(self).collections@.last().metric == metric
                && final(self).collections@.last().points@.len() == 0,
    {
        if self.collection_exists(name) {
            false
        } else {
            self.create_collection(name.clone(), dims, metric);
            true
        }
    }
}

/// The position of a stored point with the given identifier, if any.
fn find_index(points: &Vec<PointRecord>, id: u64) -> (r: Option<usize>)
    ensures
        r matches Some(j) ==> j < points@.len() && points_view(points@)[j as int].id == id,
        r is None ==> !has_id(points_view(points@), id),
{
    let n = points.len();
    let mut i: usize = 0;
    while i < n
        invariant
            n == points@.len(),
            i <= n,
            forall|j: int| 0 <= j < i ==> (#[trigger] points_view(points@)[j]).id != id,
        decreases n - i,
    {
        if points[i].id == id {
            assert(points_view(points@)[i as int].id == id);
            return Some(i);
        }
        assert(points_view(points@)[i as int].id != id);
        i = i + 1;
    }
    None
}

/// Writing one well-formed point preserves well-formedness of the store.
proof fn lemma_upsert_one_wf(stored: Seq<PointView>, p: PointView, dims: nat)
    requires
        unique_ids(stored),
        all_dims_ok(stored, dims),
        p.vector.len() == dims,
    ensures
        unique_ids(upsert_one(stored, p)),
        all_dims_ok(upsert_one(stored, p), dims),
{
    let after = upsert_one(stored, p);
    if has_id(stored, p.id) {
        let i = choose|i: int| 0 <= i < stored.len() && (#[trigger] stored[i]).id == p.id;
        assert(after == stored.update(i, p));
        assert forall|a: int, b: int| 0 <= a < b < after.len() implies (#[trigger] after[a]).id
            != (#[trigger] after[b]).id by {
            assert(stored[a].id != stored[b].id);
        }
    } else {
        assert(after == stored.push(p));
        assert forall|a: int, b: int| 0 <= a < b < after.len() implies (#[trigger] after[a]).id
            != (#[trigger] after[b]).id by {
            if b == after.len() - 1 {
                assert(!(stored[a].id == p.id));
            } else {
                assert(stored[a].id != stored[b].id);
            }
        }
    }
}

/// Writing one point stores exactly the identifiers stored before plus the
/// written one.
proof fn lemma_upsert_one_ids(stored: Seq<PointView>, p: PointView, x: u64)
    ensures
        has_id(upsert_one(stored, p), x) <==> (has_id(stored, x) || p.id == x),
{
    let after = upsert_one(stored, p);
    if has_id(stored, p.id) {
        let i = choose|i: int| 0 <= i < stored.len() && (#[trigger] stored[i]).id == p.id;
        assert(after == stored.update(i, p));
        if has_id(after, x) {
            let j = choose|j: int| 0 <= j < after.len() && (#[trigger] after[j]).id == x;
            if j == i {
                assert(p.id == x);
            } else {
                assert(stored[j].id == x);
            }
        }
        if has_id(stored, x) {
            let j = choose|j: int| 0 <= j < stored.len() && (#[trigger] stored[j]).id == x;
            if j == i {
                assert(after[i].id == p.id == stored[i].id == x);
            } else {
                assert(after[j].id == x);
            }
        }
        if p.id == x {
            assert(after[i].id == x);
        }
    } else {
        assert(after == stored.push(p));
        if has_id(after, x) {
            let j = choose|j: int| 0 <= j < after.len() && (#[trigger] after[j]).id == x;
            if j == after.len() - 1 {
                assert(p.id == x);
            } else {
                assert(stored[j].id == x);
            }
        }
        if has_id(stored, x) {
            let j = choose|j: int| 0 <= j < stored.len() && (#[trigger] stored[j]).id == x;
            assert(after[j].id == x);
        }
        if p.id == x {
            assert(after[after.len() - 1].id == x);
        }
    }
}

/// Writing a batch stores exactly the identifiers stored before plus the
/// batch's own.
proof fn lemma_upsert_all_ids(stored: Seq<PointView>, incoming: Seq<PointView>, x: u64)
    ensures
        has_id(upsert_all(stored, incoming), x) <==> (has_id(stored, x) || has_id(incoming, x)),
    decreases incoming.len(),
{
    if incoming.len() == 0 {
        assert(!has_id(incoming, x));
    } else {
        let front = incoming.drop_last();
        let p = incoming.last();
        lemma_upsert_all_ids(stored, front, x);
        lemma_upsert_one_ids(upsert_all(stored, front), p, x);
        assert(has_id(incoming, x) <==> (has_id(front, x) || p.id == x)) by {
            if has_id(incoming, x) {
                let j = choose|j: int|
                    0 <= j < incoming.len() && (#[trigger] incoming[j]).id == x;
                if j == incoming.len() - 1 {
                    assert(p.id == x);
                } else {
                    assert(front[j].id == x);
                }
            }
            if has_id(front, x) {
                let j = choose|j: int| 0 <= j < front.len() && (#[trigger] front[j]).id == x;
                assert(incoming[j].id == x);
            }
            if p.id == x {
                assert(incoming[incoming.len() - 1].id == x);
            }
        }
    }
}

/// Law: writing a batch whose identifiers are pairwise distinct and all
/// absent from the store grows the point count by exactly the batch size —
/// fresh identifiers insert, they never overwrite.
pub proof fn lemma_upsert_fresh_count(stored: Seq<PointView>, incoming: Seq<PointView>)
    requires
        unique_ids(incoming),
        forall|i: int|
            0 <= i < incoming.len() ==> !has_id(stored, (#[trigger] incoming[i]).id),
    ensures
        upsert_all(stored, incoming).len() == stored.len() + incoming.len(),
    decreases incoming.len(),
{
    if incoming.len() > 0 {
        let front = incoming.drop_last();
        let p = incoming.last();
        assert(forall|i: int|
            0 <= i < front.len() ==> !has_id(stored, (#[trigger] front[i]).id)) by {
            assert(forall|i: int| 0 <= i < front.len() ==> front[i] == incoming[i]);
        }
        lemma_upsert_fresh_count(stored, front);
        let acc = upsert_all(stored, front);
        lemma_upsert_all_ids(stored, front, p.id);
        assert(!has_id(stored, p.id));
        assert(!has_id(front, p.id)) by {
            if has_id(front, p.id) {
                let j = choose|j: int| 0 <= j < front.len() && (#[trigger] front[j]).id == p.id;
                assert(incoming[j].id == incoming[incoming.len() - 1].id);
            }
        }
        assert(!has_id(acc, p.id));
        assert(upsert_all(stored, incoming) == acc.push(p));
    }
}

/// Law instance: a batch of three points with pairwise distinct, fresh
/// identifiers grows the point count by exactly three.
pub proof fn lemma_upsert_three_fresh(
    stored: Seq<PointView>,
    p1: PointView,
    p2: PointView,
    p3: PointView,
)
    requires
        p1.id != p2.id,
        p1.id != p3.id,
        p2.id != p3.id,
        !has_id(stored, p1.id),
        !has_id(stored, p2.id),
        !has_id(stored, p3.id),
    ensures
        upsert_all(stored, seq![p1, p2, p3]).len() == stored.len() + 3,
{
    let incoming = seq![p1, p2, p3];
    assert(unique_ids(incoming));
    assert(forall|i: int|
        0 <= i < incoming.len() ==> !has_id(stored, (#[trigger] incoming[i]).id)) by {
        assert(incoming[0] == p1);
        assert(incoming[1] == p2);
        assert(incoming[2] == p3);
    }
    lemma_upsert_fresh_count(stored, incoming);
}

/// No stored point matches the filter: the filtered identifier sequence is
/// empty.
proof fn lemma_matching_ids_none(ps: Seq<PointView>, c: MatchConditionView)
    requires
        forall|j: int| 0 <= j < ps.len() ==> !payload_matches((#[trigger] ps[j]).payload, c),
    ensures
        matching_ids(ps, c) == Seq::<u64>::empty(),
    decreases ps.len(),
{
    if ps.len() > 0 {
        assert(forall|j: int|
            0 <= j < ps.drop_last().len() ==> !payload_matches(
                (#[trigger] ps.drop_last()[j]).payload,
                c,
            )) by {
            assert(forall|j: int| 0 <= j < ps.len() - 1 ==> ps.drop_last()[j] == ps[j]);
        }
        lemma_matching_ids_none(ps.drop_last(), c);
        assert(!payload_matches(ps[ps.len() - 1].payload, c));
    }
}

/// Exactly one stored point matches the filter: the filtered identifier
/// sequence is exactly that point's identifier.
proof fn lemma_matching_ids_single(ps: Seq<PointView>, c: MatchConditionView, i: int)
    requires
        0 <= i < ps.len(),
        payload_matches(ps[i].payload, c),
        forall|j: int|
            0 <= j < ps.len() && j != i ==> !payload_matches((#[trigger] ps[j]).payload, c),
    ensures
        matching_ids(ps, c) == seq![ps[i].id],
    decreases ps.len(),
{
    let front = ps.drop_last();
    assert(forall|j: int| 0 <= j < ps.len() - 1 ==> front[j] == ps[j]);
    if i == ps.len() - 1 {
        lemma_matching_ids_none(front, c);
        assert(matching_ids(ps, c) =~= seq![ps[i].id]);
    } else {
        assert(!payload_matches(ps[ps.len() - 1].payload, c));
        lemma_matching_ids_single(front, c, i);
        assert(matching_ids(ps, c) == matching_ids(front, c));
    }
}

/// Law: against a collection where exactly one point's payload satisfies
/// the filter, the filtered search returns exactly that point's identifier,
/// whatever positive result limit is requested.
pub proof fn lemma_single_match_search(
    ps: Seq<PointView>,
    c: MatchConditionView,
    i: int,
    limit: int,
)
    requires
        0 <= i < ps.len(),
        payload_matches(ps[i].payload, c),
        forall|j: int|
            0 <= j < ps.len() && j != i ==> !payload_matches((#[trigger] ps[j]).payload, c),
        limit >= 1,
    ensures
        truncated_ids(matching_ids(ps, c), limit) == seq![ps[i].id],
{
    lemma_matching_ids_single(ps, c, i);
}

} // verus!
