//! Selection geometry: which of the entities that the spatial index found lie
//! inside a four-cornered region of the ground, and no more than one unit
//! below its lowest corner.

use vstd::prelude::*;
use crate::fixed::SCALE;
use crate::vec3::{V3, Vec3, COMPONENT_LIMIT};
use crate::boid::Found;

verus! {

/// Three points.
#[derive(Clone, Copy, Debug)]
pub struct Triangle3d {
    pub vertices: [Vec3; 3],
}

/// On which side of the line from `start` to `end` the point `query` lies, on
/// the ground plane: positive on the one, negative on the other, zero on the
/// line. Heights are ignored.
pub open spec fn side_of(start: V3, end: V3, query: V3) -> int {
    (end.z - start.z) * (query.x - start.x) + (-end.x + start.x) * (query.z - start.z)
}

/// `query` lies on the side that is not negative of each edge of the triangle
/// `p1`, `p2`, `p3`, taken in this order.
pub open spec fn in_triangle(p1: V3, p2: V3, p3: V3, query: V3) -> bool {
    &&& side_of(p1, p2, query) >= 0
    &&& side_of(p2, p3, query) >= 0
    &&& side_of(p3, p1, query) >= 0
}

/// The point on the ground below or above `p`.
pub open spec fn grounded(p: V3) -> V3 {
    V3 { x: p.x, y: 0, z: p.z }
}

/// `query` lies in one of the two triangles into which the diagonal from
/// `corner1` to `corner3` cuts the region.
pub open spec fn in_rect(corner1: V3, corner2: V3, corner3: V3, corner4: V3, query: V3) -> bool {
    ||| in_triangle(grounded(corner1), grounded(corner2), grounded(corner3), query)
    ||| in_triangle(grounded(corner1), grounded(corner3), grounded(corner4), query)
}

/// The lower corner of the box that holds the region: the least of the
/// corners along each axis, and one unit lower in height. The box has no
/// upper corner.
pub open spec fn floor_of(corner1: V3, corner2: V3, corner3: V3, corner4: V3) -> V3 {
    V3 {
        x: min4(corner1.x, corner2.x, corner3.x, corner4.x),
        y: min4(corner1.y, corner2.y, corner3.y, corner4.y) - SCALE,
        z: min4(corner1.z, corner2.z, corner3.z, corner4.z),
    }
}

/// `p` is nowhere lower than `low`.
pub open spec fn above(low: V3, p: V3) -> bool {
    &&& p.x >= low.x
    &&& p.y >= low.y
    &&& p.z >= low.z
}

/// The test that `within_rect` applies to each entity: it lies in the box of
/// the region and in one of its two triangles.
pub open spec fn rect_holds(corner1: V3, corner2: V3, corner3: V3, corner4: V3) -> spec_fn(
    Found,
) -> bool {
    |e: Found|
        above(floor_of(corner1, corner2, corner3, corner4), e.0@) && in_rect(
            corner1,
            corner2,
            corner3,
            corner4,
            e.0@,
        )
}

/// The least of four numbers.
pub open spec fn min4(a: int, b: int, c: int, d: int) -> int {
    let ab = if a <= b {
        a
    } else {
        b
    };
    let cd = if c <= d {
        c
    } else {
        d
    };
    if ab <= cd {
        ab
    } else {
        cd
    }
}

fn least(a: i64, b: i64, c: i64, d: i64) -> (m: i64)
    ensures
        m == min4(a as int, b as int, c as int, d as int),
{
    let ab: i64 = if a <= b {
        a
    } else {
        b
    };
    let cd: i64 = if c <= d {
        c
    } else {
        d
    };
    if ab <= cd {
        ab
    } else {
        cd
    }
}

/// On which side of the line from `start` to `end` the point `query` lies.
pub fn side(start: Vec3, end: Vec3, query: &Vec3) -> (s: i128)
    requires
        start@.fits(COMPONENT_LIMIT as int),
        end@.fits(COMPONENT_LIMIT as int),
        query@.fits(COMPONENT_LIMIT as int),
    ensures
        s == side_of(start@, end@, query@),
{
    let dz: i128 = (end.z as i128) - (start.z as i128);
    let qx: i128 = (query.x as i128) - (start.x as i128);
    let dx: i128 = -(end.x as i128) + (start.x as i128);
    let qz: i128 = (query.z as i128) - (start.z as i128);
    assert(-64_000_000_000_000_000_000_000_000_000_000_000_000 <= dz * qx
        <= 64_000_000_000_000_000_000_000_000_000_000_000_000) by (nonlinear_arith)
        requires
            -8_000_000_000_000_000_000 <= dz <= 8_000_000_000_000_000_000,
            -8_000_000_000_000_000_000 <= qx <= 8_000_000_000_000_000_000,
    ;
    assert(-64_000_000_000_000_000_000_000_000_000_000_000_000 <= dx * qz
        <= 64_000_000_000_000_000_000_000_000_000_000_000_000) by (nonlinear_arith)
        requires
            -8_000_000_000_000_000_000 <= dx <= 8_000_000_000_000_000_000,
            -8_000_000_000_000_000_000 <= qz <= 8_000_000_000_000_000_000,
    ;
    dz * qx + dx * qz
}

/// Whether `query` lies on the side that is not negative of each edge of the
/// triangle.
pub fn point_in_triangle(tri: Triangle3d, query: &Vec3) -> (inside: bool)
    requires
        tri.vertices[0]@.fits(COMPONENT_LIMIT as int),
        tri.vertices[1]@.fits(COMPONENT_LIMIT as int),
        tri.vertices[2]@.fits(COMPONENT_LIMIT as int),
        query@.fits(COMPONENT_LIMIT as int),
    ensures
        inside == in_triangle(tri.vertices[0]@, tri.vertices[1]@, tri.vertices[2]@, query@),
{
    let p1: Vec3 = tri.vertices[0];
    let p2: Vec3 = tri.vertices[1];
    let p3: Vec3 = tri.vertices[2];
    let side1: bool = side(p1, p2, query) >= 0;
    let side2: bool = side(p2, p3, query) >= 0;
    let side3: bool = side(p3, p1, query) >= 0;
    side1 && side2 && side3
}

/// The lower corner of the box in which the spatial index is to look for the
/// entities of the region.
pub fn rect_floor(corner1: Vec3, corner2: Vec3, corner3: Vec3, corner4: Vec3) -> (low: Vec3)
    requires
        corner1@.fits(COMPONENT_LIMIT as int),
        corner2@.fits(COMPONENT_LIMIT as int),
        corner3@.fits(COMPONENT_LIMIT as int),
        corner4@.fits(COMPONENT_LIMIT as int),
    ensures
        low@ == floor_of(corner1@, corner2@, corner3@, corner4@),
{
    Vec3 {
        x: least(corner1.x, corner2.x, corner3.x, corner4.x),
        y: least(corner1.y, corner2.y, corner3.y, corner4.y) - SCALE,
        z: least(corner1.z, corner2.z, corner3.z, corner4.z),
    }
}

fn flat(p: Vec3) -> (r: Vec3)
    ensures
        r@ == grounded(p@),
{
    Vec3 { x: p.x, y: 0, z: p.z }
}

/// Those of the entities `found` that lie in the region with the four
/// corners, in the order in which they were found. What the index found may
/// reach beyond the box of the region: the result is the same.
pub fn within_rect(
    corner1: Vec3,
    corner2: Vec3,
    corner3: Vec3,
    corner4: Vec3,
    found: &Vec<Found>,
) -> (inside: Vec<Found>)
    requires
        corner1@.fits(COMPONENT_LIMIT as int),
        corner2@.fits(COMPONENT_LIMIT as int),
        corner3@.fits(COMPONENT_LIMIT as int),
        corner4@.fits(COMPONENT_LIMIT as int),
        forall|i: int| 0 <= i < found.len() ==> (#[trigger] found[i]).0@.fits(COMPONENT_LIMIT as int),
    ensures
        inside@ == found@.filter(rect_holds(corner1@, corner2@, corner3@, corner4@)),
{
    let tri1 = Triangle3d { vertices: [flat(corner1), flat(corner2), flat(corner3)] };
    let tri2 = Triangle3d { vertices: [flat(corner1), flat(corner3), flat(corner4)] };
    let low: Vec3 = rect_floor(corner1, corner2, corner3, corner4);
    let ghost holds = rect_holds(corner1@, corner2@, corner3@, corner4@);
    let mut inside: Vec<Found> = Vec::new();
    let n: usize = found.len();
    let mut i: usize = 0;
    proof {
        reveal(Seq::filter);
        assert(found@.take(0) =~= Seq::<Found>::empty());
    }
    while i < n
        invariant
            0 <= i <= n,
            n == found.len(),
            holds == rect_holds(corner1@, corner2@, corner3@, corner4@),
            low@ == floor_of(corner1@, corner2@, corner3@, corner4@),
            tri1.vertices[0]@ == grounded(corner1@),
            tri1.vertices[1]@ == grounded(corner2@),
            tri1.vertices[2]@ == grounded(corner3@),
            tri2.vertices[0]@ == grounded(corner1@),
            tri2.vertices[1]@ == grounded(corner3@),
            tri2.vertices[2]@ == grounded(corner4@),
            corner1@.fits(COMPONENT_LIMIT as int),
            corner2@.fits(COMPONENT_LIMIT as int),
            corner3@.fits(COMPONENT_LIMIT as int),
            corner4@.fits(COMPONENT_LIMIT as int),
            forall|j: int|
                0 <= j < found.len() ==> (#[trigger] found[j]).0@.fits(COMPONENT_LIMIT as int),
            inside@ == found@.take(i as int).filter(holds),
        decreases n - i,
    {
        let entry: Found = found[i];
        let pos: Vec3 = entry.0;
        let keep: bool = pos.x >= low.x && pos.y >= low.y && pos.z >= low.z && (
        point_in_triangle(tri1, &pos) || point_in_triangle(tri2, &pos));
        proof {
            assert(found@.take(i + 1) =~= found@.take(i as int).push(entry));
            found@.take(i as int).lemma_filter_push(entry, holds);
            assert(keep == holds(entry));
        }
        if keep {
            inside.push(entry);
        }
        i = i + 1;
    }
    proof {
        assert(found@.take(n as int) =~= found@);
    }
    inside
}

} // verus!
