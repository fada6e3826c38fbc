//! Near-plane clipping, decided from the side of the plane each corner
//! lies on: which pieces remain, and which corners and edge crossings
//! make them.
use vstd::prelude::*;

verus! {

/// Where a corner of a triangle lies with respect to the near plane: behind
/// it (cut away), exactly on it, or in front of it. A corner on the plane is
/// kept, as one in front is.
#[derive(Debug, Copy, Clone, PartialEq, Eq, Structural)]
pub enum Side {
    Outside,
    OnPlane,
    Inside,
}

/// A corner of a clipped triangle: a corner of the input triangle (0, 1 or 2),
/// or the point where the edge from a cut-away corner to a kept corner
/// crosses the near plane.
#[derive(Debug, Copy, Clone, PartialEq, Eq, Structural)]
pub enum ClipPoint {
    Vertex(usize),
    Crossing(usize, usize),
}

/// A triangle of the clipping result, in terms of the input triangle.
#[derive(Debug, Copy, Clone, PartialEq, Eq, Structural)]
pub struct ClipTriangle {
    pub p1: ClipPoint,
    pub p2: ClipPoint,
    pub p3: ClipPoint,
}

pub open spec fn tri(p1: ClipPoint, p2: ClipPoint, p3: ClipPoint) -> ClipTriangle {
    ClipTriangle { p1, p2, p3 }
}

pub open spec fn is_out(s: Side) -> bool {
    s == Side::Outside
}

/// The corners that are cut away, in order.
pub open spec fn outside_corners(s1: Side, s2: Side, s3: Side) -> Seq<usize> {
    (if is_out(s1) { seq![0usize] } else { seq![] }) + (if is_out(s2) { seq![1usize] } else { seq![] })
        + (if is_out(s3) { seq![2usize] } else { seq![] })
}

/// The corners that are kept, in order.
pub open spec fn inside_corners(s1: Side, s2: Side, s3: Side) -> Seq<usize> {
    (if !is_out(s1) { seq![0usize] } else { seq![] }) + (if !is_out(s2) { seq![1usize] } else { seq![] })
        + (if !is_out(s3) { seq![2usize] } else { seq![] })
}

/// Corner 1 is alone on its side of the plane. Listing the pieces from the
/// kept corners in order would then turn them the other way round, so they
/// are listed in the other order to keep the input's winding.
pub open spec fn reversed(s1: Side, s2: Side, s3: Side) -> bool {
    is_out(s2) != is_out(s1) && is_out(s2) != is_out(s3)
}

/// What clipping yields for a triangle whose corners lie on the given sides.
pub open spec fn clip_plan(s1: Side, s2: Side, s3: Side) -> Seq<ClipTriangle> {
    let out = outside_corners(s1, s2, s3);
    let inn = inside_corners(s1, s2, s3);
    let v = |i: usize| ClipPoint::Vertex(i);
    if out.len() == 0 {
        seq![tri(v(0), v(1), v(2))]
    } else if out.len() == 3 {
        seq![]
    } else if out.len() == 1 {
        let c0 = ClipPoint::Crossing(out[0], inn[0]);
        let c1 = ClipPoint::Crossing(out[0], inn[1]);
        if reversed(s1, s2, s3) {
            seq![tri(c1, v(inn[1]), c0), tri(c0, v(inn[1]), v(inn[0]))]
        } else {
            seq![tri(c0, v(inn[0]), c1), tri(c1, v(inn[0]), v(inn[1]))]
        }
    } else {
        let c0 = ClipPoint::Crossing(out[0], inn[0]);
        let c1 = ClipPoint::Crossing(out[1], inn[0]);
        if reversed(s1, s2, s3) {
            seq![tri(c0, v(inn[0]), c1)]
        } else {
            seq![tri(c0, c1, v(inn[0]))]
        }
    }
}

/// The point is a kept corner, or the crossing of an edge from a cut-away
/// corner to a kept one.
pub open spec fn point_kept(p: ClipPoint, s: Seq<Side>) -> bool {
    match p {
        ClipPoint::Vertex(i) => i < 3 && !is_out(s[i as int]),
        ClipPoint::Crossing(o, i) => o < 3 && i < 3 && is_out(s[o as int]) && !is_out(s[i as int]),
    }
}

/// Where the point lies on the boundary of the input triangle, walking
/// corner 0, edge 0-1, corner 1, edge 1-2, corner 2, edge 2-0.
pub open spec fn boundary_position(p: ClipPoint) -> int {
    match p {
        ClipPoint::Vertex(i) => 2 * i,
        ClipPoint::Crossing(a, b) => if (a == 0 && b == 1) || (a == 1 && b == 0) {
            1
        } else if (a == 1 && b == 2) || (a == 2 && b == 1) {
            3
        } else {
            5
        },
    }
}

/// The triangle's corners come in the boundary order of the input triangle:
/// it has the input's winding.
pub open spec fn keeps_winding(t: ClipTriangle) -> bool {
    let (a, b, c) = (boundary_position(t.p1), boundary_position(t.p2), boundary_position(t.p3));
    (a < b && b < c) || (b < c && c < a) || (c < a && a < b)
}

/// Splits a triangle against the near plane, given the side of each corner:
/// none cut away gives the triangle itself, all cut away gives nothing, one
/// cut away gives the two triangles of the remaining quadrilateral, two cut
/// away gives the one remaining triangle.
pub fn clip(s1: Side, s2: Side, s3: Side) -> (r: Vec<ClipTriangle>)
    ensures
        r@ == clip_plan(s1, s2, s3),
        !is_out(s1) && !is_out(s2) && !is_out(s3) ==> r@ == seq![
            tri(ClipPoint::Vertex(0), ClipPoint::Vertex(1), ClipPoint::Vertex(2)),
        ],
        is_out(s1) && is_out(s2) && is_out(s3) ==> r@.len() == 0,
        outside_corners(s1, s2, s3).len() == 1 ==> r@.len() == 2,
        outside_corners(s1, s2, s3).len() == 2 ==> r@.len() == 1,
        forall|k: int|
            0 <= k < r@.len() ==> point_kept(#[trigger] r@[k].p1, seq![s1, s2, s3]) && point_kept(
                r@[k].p2,
                seq![s1, s2, s3],
            ) && point_kept(r@[k].p3, seq![s1, s2, s3]),
        forall|k: int| 0 <= k < r@.len() ==> keeps_winding(#[trigger] r@[k]),
{
    let mut out: Vec<usize> = Vec::new();
    let mut inn: Vec<usize> = Vec::new();
    if s1 == Side::Outside { out.push(0); } else { inn.push(0); }
    if s2 == Side::Outside { out.push(1); } else { inn.push(1); }
    if s3 == Side::Outside { out.push(2); } else { inn.push(2); }
    assert(out@ =~= outside_corners(s1, s2, s3));
    assert(inn@ =~= inside_corners(s1, s2, s3));
    let out1 = s1 == Side::Outside;
    let out2 = s2 == Side::Outside;
    let out3 = s3 == Side::Outside;
    let reversed = out2 != out1 && out2 != out3;
    let r = if out.len() == 0 {
        vec![ClipTriangle { p1: ClipPoint::Vertex(0), p2: ClipPoint::Vertex(1), p3: ClipPoint::Vertex(2) }]
    } else if out.len() == 3 {
        Vec::new()
    } else if out.len() == 1 {
        let c0 = ClipPoint::Crossing(out[0], inn[0]);
        let c1 = ClipPoint::Crossing(out[0], inn[1]);
        if reversed {
            vec![
                ClipTriangle { p1: c1, p2: ClipPoint::Vertex(inn[1]), p3: c0 },
                ClipTriangle { p1: c0, p2: ClipPoint::Vertex(inn[1]), p3: ClipPoint::Vertex(inn[0]) },
            ]
        } else {
            vec![
                ClipTriangle { p1: c0, p2: ClipPoint::Vertex(inn[0]), p3: c1 },
                ClipTriangle { p1: c1, p2: ClipPoint::Vertex(inn[0]), p3: ClipPoint::Vertex(inn[1]) },
            ]
        }
    } else {
        let c0 = ClipPoint::Crossing(out[0], inn[0]);
        let c1 = ClipPoint::Crossing(out[1], inn[0]);
        if reversed {
            vec![ClipTriangle { p1: c0, p2: ClipPoint::Vertex(inn[0]), p3: c1 }]
        } else {
            vec![ClipTriangle { p1: c0, p2: c1, p3: ClipPoint::Vertex(inn[0]) }]
        }
    };
    assert(r@ =~= clip_plan(s1, s2, s3));
    r
}

} // verus!
