//! Geometry and drawing model: affine transforms, declared sizes, colors,
//! path segments and the draw commands handed to a host rendering backend.
//!
//! Geometry is carried in integer device units; a host backend converts the
//! commands into its own floating-point drawing calls.

use vstd::prelude::*;

verus! {

/// A 2-D affine transform: column-major coefficients in integer units.
#[derive(Clone, Copy, PartialEq, Eq, Structural, Debug)]
pub struct Transform2D {
    pub xx: i64,
    pub xy: i64,
    pub yx: i64,
    pub yy: i64,
    pub dx: i64,
    pub dy: i64,
}

impl Transform2D {
    /// The identity transform.
    pub open spec fn identity_spec() -> Transform2D {
        Transform2D { xx: 1, xy: 0, yx: 0, yy: 1, dx: 0, dy: 0 }
    }

    /// Builds the identity transform.
    pub fn identity() -> (r: Transform2D)
        ensures
            r == Transform2D::identity_spec(),
    {
        Transform2D { xx: 1, xy: 0, yx: 0, yy: 1, dx: 0, dy: 0 }
    }
}

/// A declared size: absolute pixels, or a percentage of the available bound.
#[derive(Clone, Copy, PartialEq, Eq, Structural, Debug)]
pub enum Size {
    Pixels(u64),
    Percent(u64),
}

/// The pixel extent a declared size takes within an available bound, clamped
/// at the machine limit.
pub open spec fn size_within(size: Size, bound: u64) -> u64 {
    match size {
        Size::Pixels(p) => p,
        Size::Percent(p) => if bound * p / 100 <= u64::MAX {
            (bound * p / 100) as u64
        } else {
            u64::MAX
        },
    }
}

/// Computes the pixel extent of a declared size within an available bound.
pub fn compute_size_within_bound(size: Size, bound: u64) -> (r: u64)
    ensures
        r == size_within(size, bound),
{
    match size {
        Size::Pixels(p) => p,
        Size::Percent(p) => {
            proof {
                assert((bound as int) * (p as int) <= (u64::MAX as int) * (u64::MAX as int))
                    by (nonlinear_arith)
                    requires
                        0 <= bound <= u64::MAX,
                        0 <= p <= u64::MAX,
                ;
            }
            let wide: u128 = (bound as u128) * (p as u128) / 100;
            if wide <= u64::MAX as u128 {
                wide as u64
            } else {
                u64::MAX
            }
        },
    }
}

/// An RGBA color.
#[derive(Clone, Copy, PartialEq, Eq, Structural, Debug)]
pub struct Color {
    pub r: u8,
    pub g: u8,
    pub b: u8,
    pub a: u8,
}

/// A point in integer device units.
#[derive(Clone, Copy, PartialEq, Eq, Structural, Debug)]
pub struct PointI {
    pub x: i64,
    pub y: i64,
}

/// A straight segment of a path.
#[derive(Clone, Copy, PartialEq, Eq, Structural, Debug)]
pub struct LineSegmentData {
    pub start: PointI,
    pub end: PointI,
}

/// A quadratic segment of a path.
#[derive(Clone, Copy, PartialEq, Eq, Structural, Debug)]
pub struct CurveSegmentData {
    pub start: PointI,
    pub handle: PointI,
    pub end: PointI,
}

/// One segment of a vector path.
#[derive(Clone, Copy, PartialEq, Eq, Structural, Debug)]
pub enum PathSegment {
    Empty,
    LineSegment(LineSegmentData),
    CurveSegment(CurveSegmentData),
}

/// One drawing instruction for a host backend. `transforms` is the chain of
/// transforms accumulated from the root down to the node, oldest first; the
/// backend composes and applies them.
pub enum DrawCommand {
    FillPath {
        id_chain: Vec<u64>,
        transforms: Vec<Transform2D>,
        segments: Vec<PathSegment>,
        color: Color,
    },
    StrokePath {
        id_chain: Vec<u64>,
        transforms: Vec<Transform2D>,
        segments: Vec<PathSegment>,
        color: Color,
        width: u64,
    },
    DrawImage {
        id_chain: Vec<u64>,
        transforms: Vec<Transform2D>,
        width: u64,
        height: u64,
        path: String,
    },
}

/// An element-for-element copy of a segment list.
pub fn copy_segments(v: &Vec<PathSegment>) -> (r: Vec<PathSegment>)
    ensures
        r@ == v@,
{
    let mut r: Vec<PathSegment> = Vec::new();
    let n = v.len();
    let mut i: usize = 0;
    while i < n
        invariant
            n == v@.len(),
            i <= n,
            r@.len() == i,
            forall|j: int| 0 <= j < i ==> r@[j] == v@[j],
        decreases n - i,
    {
        r.push(v[i]);
        i += 1;
    }
    assert(r@ =~= v@);
    r
}

/// An element-for-element copy of a transform chain.
pub fn copy_transforms(v: &Vec<Transform2D>) -> (r: Vec<Transform2D>)
    ensures
        r@ == v@,
{
    let mut r: Vec<Transform2D> = Vec::new();
    let n = v.len();
    let mut i: usize = 0;
    while i < n
        invariant
            n == v@.len(),
            i <= n,
            r@.len() == i,
            forall|j: int| 0 <= j < i ==> r@[j] == v@[j],
        decreases n - i,
    {
        r.push(v[i]);
        i += 1;
    }
    assert(r@ =~= v@);
    r
}

/// A copy of a transform chain extended by one more transform.
pub fn extend_transforms(v: &Vec<Transform2D>, t: Transform2D) -> (r: Vec<Transform2D>)
    ensures
        r@ == v@.push(t),
{
    let mut r = copy_transforms(v);
    r.push(t);
    r
}

/// An element-for-element copy of an id chain.
pub fn copy_chain(v: &Vec<u64>) -> (r: Vec<u64>)
    ensures
        r@ == v@,
{
    let mut r: Vec<u64> = Vec::new();
    let n = v.len();
    let mut i: usize = 0;
    while i < n
        invariant
            n == v@.len(),
            i <= n,
            r@.len() == i,
            forall|j: int| 0 <= j < i ==> r@[j] == v@[j],
        decreases n - i,
    {
        r.push(v[i]);
        i += 1;
    }
    assert(r@ =~= v@);
    r
}

/// A copy of an id chain extended by one more id.
pub fn extend_chain(v: &Vec<u64>, id: u64) -> (r: Vec<u64>)
    ensures
        r@ == v@.push(id),
{
    let mut r = copy_chain(v);
    r.push(id);
    r
}

/// True iff two id chains address the same rendered instance.
pub fn chains_equal(a: &Vec<u64>, b: &Vec<u64>) -> (r: bool)
    ensures
        r == (a@ == b@),
{
    let n = a.len();
    if n != b.len() {
        assert(a@.len() != b@.len());
        return false;
    }
    let mut i: usize = 0;
    while i < n
        invariant
            n == a@.len(),
            n == b@.len(),
            i <= n,
            forall|j: int| 0 <= j < i ==> a@[j] == b@[j],
        decreases n - i,
    {
        if a[i] != b[i] {
            return false;
        }
        i += 1;
    }
    assert(a@ =~= b@);
    true
}

/// Two sibling virtual instances of one repeat node carry distinct id
/// chains: the chains agree on the shared prefix and differ in the final
/// position, which holds the instance's index.
pub proof fn lemma_sibling_chains_distinct(base: Seq<u64>, i: u64, j: u64)
    requires
        i != j,
    ensures
        base.push(i) != base.push(j),
{
    assert(base.push(i)[base.len() as int] == i);
    assert(base.push(j)[base.len() as int] == j);
}

/// Extending two distinct id chains of equal length by equal-length suffixes
/// keeps them distinct, so instances under distinct virtual scopes (for
/// example two iterations of an outer repeat) never share an id chain.
pub proof fn lemma_extended_chains_distinct(a: Seq<u64>, b: Seq<u64>, s: Seq<u64>, t: Seq<u64>)
    requires
        a.len() == b.len(),
        a != b,
        s.len() == t.len(),
    ensures
        a + s != b + t,
{
    assert(exists|k: int| 0 <= k < a.len() && a[k] != b[k]) by {
        if forall|k: int| 0 <= k < a.len() ==> a[k] == b[k] {
            assert(a =~= b);
        }
    }
    let k = choose|k: int| 0 <= k < a.len() && a[k] != b[k];
    assert((a + s)[k] == a[k]);
    assert((b + t)[k] == b[k]);
}

} // verus!
