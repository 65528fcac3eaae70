//! The outline of a mesh: the three sides of each of its triangles.

use crate::cell::Position;
use vstd::prelude::*;

verus! {

/// A line segment between two positions.
#[derive(Clone, Copy, Debug, PartialEq, Eq)]
pub struct Segment {
    pub from: Position,
    pub to: Position,
}

/// The corner number `corner` (0, 1 or 2) of triangle number `triangle`.
pub open spec fn triangle_corner(
    positions: Seq<Position>,
    indices: Seq<u32>,
    triangle: int,
    corner: int,
) -> Position {
    positions[indices[3 * triangle + corner] as int]
}

/// The sides of the first `triangles` triangles: for each triangle the side
/// from its first corner to its second, from its second to its third, and
/// from its third back to its first.
pub open spec fn triangle_sides(
    positions: Seq<Position>,
    indices: Seq<u32>,
    triangles: nat,
) -> Seq<Segment>
    decreases triangles,
{
    if triangles == 0 {
        Seq::empty()
    } else {
        let t = triangles - 1;
        let a = triangle_corner(positions, indices, t, 0);
        let b = triangle_corner(positions, indices, t, 1);
        let c = triangle_corner(positions, indices, t, 2);
        triangle_sides(positions, indices, t as nat) + seq![
            Segment { from: a, to: b },
            Segment { from: b, to: c },
            Segment { from: c, to: a },
        ]
    }
}

/// The line segments of a wireframe view of a mesh: the three sides of every
/// triangle, triangle after triangle. Indices left over after the last whole
/// triangle are passed over.
pub fn wireframe_segments(positions: &Vec<Position>, indices: &Vec<u32>) -> (segments: Vec<Segment>)
    requires
        forall|i: int| 0 <= i < indices@.len() ==> (#[trigger] indices@[i]) < positions@.len(),
    ensures
        segments@ == triangle_sides(positions@, indices@, (indices@.len() / 3) as nat),
        segments@.len() == 3 * (indices@.len() / 3),
{
    let triangles: usize = indices.len() / 3;
    let mut segments: Vec<Segment> = Vec::new();
    let mut t: usize = 0;
    while t < triangles
        invariant
            t <= triangles,
            triangles == indices@.len() / 3,
            indices@.len() <= usize::MAX,
            forall|i: int| 0 <= i < indices@.len() ==> (#[trigger] indices@[i]) < positions@.len(),
            segments@ == triangle_sides(positions@, indices@, t as nat),
            segments@.len() == 3 * t,
        decreases triangles - t,
    {
        assert(3 * t + 3 <= indices@.len());
        let a = positions[indices[3 * t] as usize];
        let b = positions[indices[3 * t + 1] as usize];
        let c = positions[indices[3 * t + 2] as usize];
        segments.push(Segment { from: a, to: b });
        segments.push(Segment { from: b, to: c });
        segments.push(Segment { from: c, to: a });
        proof {
            assert(segments@ =~= triangle_sides(positions@, indices@, t as nat) + seq![
                Segment { from: a, to: b },
                Segment { from: b, to: c },
                Segment { from: c, to: a },
            ]);
        }
        t = t + 1;
    }
    segments
}

} // verus!
