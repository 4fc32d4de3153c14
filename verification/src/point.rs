//! Point records and the vector-dimension invariant.
//!
//! A point is an identifier, a dense vector, and a payload. The library
//! never interprets vector components numerically: each component is
//! carried as the raw bit pattern of the 32-bit scalar the service stores,
//! and the only fact the logic reads is the component count. Every point
//! handed to the service must carry exactly the collection's declared
//! number of components.

use vstd::prelude::*;

use crate::payload::{fields_view, PayloadField, PayloadFieldView};

verus! {

/// One point: caller-assigned identifier, dense vector (component bit
/// patterns), and payload metadata.
#[derive(Clone, Debug)]
pub struct PointRecord {
    pub id: u64,
    pub vector: Vec<u32>,
    pub payload: Vec<PayloadField>,
}

/// Mathematical image of a [`PointRecord`].
pub struct PointView {
    pub id: u64,
    pub vector: Seq<u32>,
    pub payload: Seq<PayloadFieldView>,
}

impl View for PointRecord {
    type V = PointView;

    open spec fn view(&self) -> PointView {
        PointView { id: self.id, vector: self.vector@, payload: fields_view(self.payload@) }
    }
}

/// The image of a sequence of point records.
pub open spec fn points_view(ps: Seq<PointRecord>) -> Seq<PointView> {
    ps.map_values(|p: PointRecord| p@)
}

/// Whether every point carries a vector of exactly `dims` components.
pub open spec fn all_dims_ok(ps: Seq<PointView>, dims: nat) -> bool {
    forall|i: int| 0 <= i < ps.len() ==> (#[trigger] ps[i]).vector.len() == dims
}

/// A batch rejected before any write: some vector's component count differs
/// from the collection's declared dimensionality.
#[derive(Clone, Copy, Debug, PartialEq, Eq, Structural)]
pub struct DimensionError {
    /// Index of the first offending point in the batch.
    pub index: usize,
    /// Component count that point actually carries.
    pub found: usize,
    /// Component count the collection declares.
    pub expected: usize,
}

/// Checks every point of a batch against the declared dimensionality.
/// Returns the first offender, if any; the batch itself is never altered,
/// truncated or padded.
pub fn validate_dimensions(points: &Vec<PointRecord>, dims: usize) -> (r: Result<
    (),
    DimensionError,
>)
    ensures
        r is Ok <==> all_dims_ok(points_view(points@), dims as nat),
        r matches Err(e) ==> {
            &&& e.index < points@.len()
            &&& points_view(points@)[e.index as int].vector.len() == e.found
            &&& e.found != dims
            &&& e.expected == dims
            &&& forall|j: int|
                0 <= j < e.index ==> (#[trigger] points_view(points@)[j]).vector.len() == dims
        },
{
    let n = points.len();
    let mut i: usize = 0;
    while i < n
        invariant
            n == points@.len(),
            i <= n,
            forall|j: int|
                0 <= j < i ==> (#[trigger] points_view(points@)[j]).vector.len() == dims,
        decreases n - i,
    {
        let found = points[i].vector.len();
        if found != dims {
            assert(points_view(points@)[i as int].vector.len() == found);
            return Err(DimensionError { index: i, found, expected: dims });
        }
        assert(points_view(points@)[i as int].vector.len() == dims);
        i = i + 1;
    }
    Ok(())
}

/// A sequence of `n` copies of one component bit pattern.
pub open spec fn const_vector(n: nat, bits: u32) -> Seq<u32> {
    Seq::new(n, |i: int| bits)
}

/// A vector of `dims` components, every component the same bit pattern.
pub fn filled_vector(dims: usize, bits: u32) -> (r: Vec<u32>)
    ensures
        r@ == const_vector(dims as nat, bits),
{
    let mut v: Vec<u32> = Vec::new();
    let mut i: usize = 0;
    while i < dims
        invariant
            i <= dims,
            v@.len() == i,
            forall|j: int| 0 <= j < i ==> v@[j] == bits,
        decreases dims - i,
    {
        v.push(bits);
        i = i + 1;
    }
    proof {
        assert(v@ =~= const_vector(dims as nat, bits));
    }
    v
}

} // verus!
