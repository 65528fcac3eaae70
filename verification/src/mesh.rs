//! The mesh buffers: four sequences that grow polygon by polygon.
//!
//! Positions, normals and texture coordinates run in parallel, one entry per
//! vertex. The indices come in threes, one triangle each, and point into the
//! positions. A polygon brings its own vertices: no vertex is shared between
//! two polygons, nor between two cells.

use crate::cell::cell_position;
use crate::cell::point_at;
use crate::cell::CellPoint;
use crate::cell::EdgeFractions;
use crate::cell::EdgeRatios;
use crate::cell::Point;
use crate::cell::Position;
use crate::ratio::Ratio;
use crate::template::fan_triangles;
use crate::template::point_count;
use crate::template::polygons_of;
use crate::template::triangle_count;
use vstd::prelude::*;

verus! {

/// A vertex normal with integer components.
#[derive(Clone, Copy, Debug, PartialEq, Eq)]
pub struct Normal {
    pub x: i32,
    pub y: i32,
    pub z: i32,
}

/// A texture coordinate with integer components.
#[derive(Clone, Copy, Debug, PartialEq, Eq)]
pub struct TexCoord {
    pub u: i32,
    pub v: i32,
}

/// The normal of every vertex: the mesh is flat, and faces `(0, 0, 1)`.
pub open spec fn unit_z() -> Normal {
    Normal { x: 0, y: 0, z: 1 }
}

/// The texture coordinate of every vertex: `(0, 0)`, a placeholder.
pub open spec fn no_texture() -> TexCoord {
    TexCoord { u: 0, v: 0 }
}

/// The indices of the fan of a polygon whose first vertex has the index
/// `base`: one triangle `(base, base + k, base + k + 1)` for each `k` from 1
/// to `points - 2`.
pub open spec fn fan_indices(base: int, points: nat) -> Seq<int>
    decreases points,
{
    if points < 3 {
        Seq::empty()
    } else {
        fan_indices(base, (points - 1) as nat) + seq![base, base + points - 2, base + points - 1]
    }
}

/// The positions of the points of a polygon, in the cell `(row, col)`.
pub open spec fn polygon_points(
    polygon: Seq<CellPoint>,
    col: int,
    row: int,
    size: int,
    fractions: EdgeRatios,
) -> Seq<Point> {
    polygon.map_values(|point: CellPoint| point_at(point, col, row, size, fractions))
}

/// The positions of the points of each polygon of a template, in the cell
/// `(row, col)`.
pub open spec fn template_points(
    polygons: Seq<Seq<CellPoint>>,
    col: int,
    row: int,
    size: int,
    fractions: EdgeRatios,
) -> Seq<Seq<Point>> {
    polygons.map_values(
        |polygon: Seq<CellPoint>| polygon_points(polygon, col, row, size, fractions),
    )
}

/// The mathematical content of a [`Mesh`].
pub struct MeshModel {
    pub positions: Seq<Point>,
    pub normals: Seq<Normal>,
    pub uvs: Seq<TexCoord>,
    pub indices: Seq<int>,
}

impl MeshModel {
    /// The mesh without a vertex.
    pub open spec fn empty() -> MeshModel {
        MeshModel {
            positions: Seq::empty(),
            normals: Seq::empty(),
            uvs: Seq::empty(),
            indices: Seq::empty(),
        }
    }

    /// The mesh with one more polygon: its vertices are appended, each with
    /// the flat normal and the placeholder texture coordinate, and then the
    /// triangles of its fan, which refer to these new vertices only.
    pub open spec fn push_polygon(self, polygon: Seq<Point>) -> MeshModel {
        MeshModel {
            positions: self.positions + polygon,
            normals: self.normals + Seq::new(polygon.len(), |i: int| unit_z()),
            uvs: self.uvs + Seq::new(polygon.len(), |i: int| no_texture()),
            indices: self.indices + fan_indices(self.positions.len() as int, polygon.len()),
        }
    }

    /// The mesh with a list of polygons appended, one after the other.
    pub open spec fn push_polygons(self, polygons: Seq<Seq<Point>>) -> MeshModel
        decreases polygons.len(),
    {
        if polygons.len() == 0 {
            self
        } else {
            self.push_polygons(polygons.drop_last()).push_polygon(polygons.last())
        }
    }

    /// The three buffers of vertex data are equally long, the indices come in
    /// threes, and every index refers to a vertex of the mesh.
    pub open spec fn well_formed(self) -> bool {
        &&& self.normals.len() == self.positions.len()
        &&& self.uvs.len() == self.positions.len()
        &&& self.indices.len() % 3 == 0
        &&& forall|i: int|
            0 <= i < self.indices.len() ==> 0 <= #[trigger] self.indices[i] < self.positions.len()
    }

    /// Every vertex lies in the plane `z = 0`, has the normal `(0, 0, 1)` and
    /// the texture coordinate `(0, 0)`.
    pub open spec fn is_flat(self) -> bool {
        &&& forall|i: int|
            0 <= i < self.positions.len() ==> (#[trigger] self.positions[i]).z
                == Ratio::zero()
        &&& forall|i: int| 0 <= i < self.normals.len() ==> #[trigger] self.normals[i] == unit_z()
        &&& forall|i: int| 0 <= i < self.uvs.len() ==> #[trigger] self.uvs[i] == no_texture()
    }

    /// The number of triangles.
    pub open spec fn triangles(self) -> int {
        self.indices.len() as int / 3
    }
}

/// The buffers of a triangle mesh.
#[derive(Clone, Debug)]
pub struct Mesh {
    pub positions: Vec<Position>,
    pub normals: Vec<Normal>,
    pub uvs: Vec<TexCoord>,
    pub indices: Vec<u32>,
}

impl View for Mesh {
    type V = MeshModel;

    open spec fn view(&self) -> MeshModel {
        MeshModel {
            positions: self.positions@.map_values(|p: Position| p@),
            normals: self.normals@,
            uvs: self.uvs@,
            indices: self.indices@.map_values(|i: u32| i as int),
        }
    }
}

/// The fan of a polygon has three indices for each of its triangles, and
/// every one of them refers to a vertex of the polygon.
pub proof fn lemma_fan_indices(base: int, points: nat)
    ensures
        fan_indices(base, points).len() == 3 * fan_triangles(points),
        forall|i: int|
            0 <= i < fan_indices(base, points).len() ==> base <= #[trigger] fan_indices(
                base,
                points,
            )[i] < base + points,
    decreases points,
{
    if points >= 3 {
        lemma_fan_indices(base, (points - 1) as nat);
    }
}

/// Appending a polygon keeps a mesh well formed and flat, adds one vertex
/// for each of its points and one triangle for each triangle of its fan.
pub proof fn lemma_push_polygon(mesh: MeshModel, polygon: Seq<Point>)
    requires
        mesh.well_formed(),
    ensures
        mesh.push_polygon(polygon).well_formed(),
        mesh.push_polygon(polygon).positions.len() == mesh.positions.len() + polygon.len(),
        mesh.push_polygon(polygon).indices.len() == mesh.indices.len() + 3 * fan_triangles(
            polygon.len(),
        ),
        mesh.push_polygon(polygon).triangles() == mesh.triangles() + fan_triangles(polygon.len()),
        mesh.is_flat() && (forall|j: int|
            0 <= j < polygon.len() ==> (#[trigger] polygon[j]).z == Ratio::zero())
            ==> mesh.push_polygon(polygon).is_flat(),
{
    lemma_fan_indices(mesh.positions.len() as int, polygon.len());
}

/// The first polygons of a list have no more points than the whole list.
pub proof fn lemma_point_count_prefix<T>(polygons: Seq<Seq<T>>, count: int)
    requires
        0 <= count <= polygons.len(),
    ensures
        point_count(polygons.take(count)) <= point_count(polygons),
    decreases polygons.len() - count,
{
    if count == polygons.len() {
        assert(polygons.take(count) =~= polygons);
    } else {
        assert(polygons.take(count + 1).drop_last() =~= polygons.take(count));
        lemma_point_count_prefix(polygons, count + 1);
    }
}

/// The positions of a template's polygons are as many as its points, and
/// are cut into as many triangles.
pub proof fn lemma_template_points_count(
    polygons: Seq<Seq<CellPoint>>,
    col: int,
    row: int,
    size: int,
    fractions: EdgeRatios,
)
    ensures
        point_count(template_points(polygons, col, row, size, fractions)) == point_count(
            polygons,
        ),
        triangle_count(template_points(polygons, col, row, size, fractions))
            == triangle_count(polygons),
    decreases polygons.len(),
{
    if polygons.len() > 0 {
        let points = template_points(polygons, col, row, size, fractions);
        assert(points.drop_last() =~= template_points(
            polygons.drop_last(),
            col,
            row,
            size,
            fractions,
        ));
        lemma_template_points_count(polygons.drop_last(), col, row, size, fractions);
    }
}

/// Appending a list of polygons keeps a mesh well formed and flat. It adds
/// one vertex for each of their points and three indices for each of their
/// triangles, and leaves what the mesh held before as it was. The new
/// triangles refer to the new vertices only.
pub proof fn lemma_push_polygons(mesh: MeshModel, polygons: Seq<Seq<Point>>)
    requires
        mesh.well_formed(),
    ensures
        mesh.push_polygons(polygons).well_formed(),
        mesh.is_flat() && no_point_off_plane(polygons) ==> mesh.push_polygons(polygons).is_flat(),
        mesh.push_polygons(polygons).positions.len() == mesh.positions.len() + point_count(
            polygons,
        ),
        mesh.push_polygons(polygons).indices.len() == mesh.indices.len() + 3 * triangle_count(
            polygons,
        ),
        forall|i: int|
            0 <= i < mesh.positions.len() ==> mesh.push_polygons(polygons).positions[i]
                == mesh.positions[i],
        forall|i: int|
            0 <= i < mesh.indices.len() ==> mesh.push_polygons(polygons).indices[i]
                == mesh.indices[i],
        forall|i: int|
            mesh.indices.len() <= i < mesh.push_polygons(polygons).indices.len()
                ==> mesh.positions.len() <= #[trigger] mesh.push_polygons(polygons).indices[i],
    decreases polygons.len(),
{
    if polygons.len() > 0 {
        let earlier = mesh.push_polygons(polygons.drop_last());
        lemma_push_polygons(mesh, polygons.drop_last());
        lemma_push_polygon(earlier, polygons.last());
        lemma_fan_indices(earlier.positions.len() as int, polygons.last().len());
    }
}

/// Every point of every polygon lies in the plane `z = 0`.
pub open spec fn no_point_off_plane(polygons: Seq<Seq<Point>>) -> bool {
    forall|i: int, j: int|
        0 <= i < polygons.len() && 0 <= j < polygons[i].len() ==> (#[trigger] polygons[i][j]).z
            == Ratio::zero()
}

impl Mesh {
    /// A mesh without a vertex.
    pub fn new() -> (mesh: Mesh)
        ensures
            mesh@ == MeshModel::empty(),
            mesh.positions.len() == 0,
    {
        let mesh = Mesh {
            positions: Vec::new(),
            normals: Vec::new(),
            uvs: Vec::new(),
            indices: Vec::new(),
        };
        assert(mesh@.positions =~= Seq::empty());
        assert(mesh@.indices =~= Seq::empty());
        mesh
    }

    /// Appends one polygon of the cell `(row, col)`: its vertices, and the
    /// triangles of its fan.
    pub fn push_polygon(
        &mut self,
        polygon: &Vec<CellPoint>,
        col: u32,
        row: u32,
        square_size: u32,
        fractions: &EdgeFractions,
    )
        requires
            old(self).positions.len() + polygon.len() <= u32::MAX,
            col < u32::MAX,
            row < u32::MAX,
            fractions@.is_edge_sized(),
        ensures
            final(self)@ == old(self)@.push_polygon(
                polygon_points(
                    polygon@,
                    col as int,
                    row as int,
                    square_size as int,
                    fractions@,
                ),
            ),
            final(self).positions.len() == old(self).positions.len() + polygon.len(),
    {
        let ghost before = *self;
        let ghost points = polygon_points(
            polygon@,
            col as int,
            row as int,
            square_size as int,
            fractions@,
        );
        let base: usize = self.positions.len();
        let count: usize = polygon.len();
        let mut i: usize = 0;
        while i < count
            invariant
                i <= count,
                count == polygon.len(),
                base == before.positions.len(),
                base + count <= u32::MAX,
                col < u32::MAX,
                row < u32::MAX,
                fractions@.is_edge_sized(),
                points == polygon_points(
                    polygon@,
                    col as int,
                    row as int,
                    square_size as int,
                    fractions@,
                ),
                self.indices == before.indices,
                self@.positions == before@.positions + points.take(i as int),
                self.normals@ == before.normals@ + Seq::new(i as nat, |k: int| unit_z()),
                self.uvs@ == before.uvs@ + Seq::new(i as nat, |k: int| no_texture()),
            decreases count - i,
        {
            let ghost earlier = self@.positions;
            let position = cell_position(polygon[i], col, row, square_size, fractions);
            self.positions.push(position);
            self.normals.push(Normal { x: 0, y: 0, z: 1 });
            self.uvs.push(TexCoord { u: 0, v: 0 });
            proof {
                assert(position@ == points[i as int]);
                assert(self@.positions =~= earlier.push(position@));
                assert(points.take(i + 1) =~= points.take(i as int).push(points[i as int]));
            }
            i = i + 1;
        }
        proof {
            assert(points.take(count as int) =~= points);
        }
        let mut k: usize = 2;
        while k < count
            invariant
                2 <= k,
                count >= 2 ==> k <= count,
                count < 2 ==> k == 2,
                count == polygon.len(),
                base == before.positions.len(),
                base + count <= u32::MAX,
                self.positions@.len() == base + count,
                self@.positions == before@.positions + points,
                self.normals@ == before.normals@ + Seq::new(count as nat, |j: int| unit_z()),
                self.uvs@ == before.uvs@ + Seq::new(count as nat, |j: int| no_texture()),
                self@.indices == before@.indices + fan_indices(base as int, k as nat),
            decreases count - k,
        {
            let ghost earlier = self@.indices;
            self.indices.push(base as u32);
            self.indices.push((base + k - 1) as u32);
            self.indices.push((base + k) as u32);
            proof {
                assert(self@.indices =~= earlier + seq![base as int, base + k - 1, base + k]);
            }
            k = k + 1;
        }
        proof {
            if count < 3 {
                assert(fan_indices(base as int, 2) =~= fan_indices(base as int, count as nat));
            }
            let target = before@.push_polygon(points);
            assert(points.len() == count);
            assert(before@.positions.len() == base);
            assert(self@.positions =~= target.positions);
            assert(self@.normals =~= target.normals);
            assert(self@.uvs =~= target.uvs);
            assert(self@.indices =~= target.indices);
        }
    }

    /// Appends the polygons of a template, in the cell `(row, col)`.
    pub fn push_polygons(
        &mut self,
        polygons: &Vec<Vec<CellPoint>>,
        col: u32,
        row: u32,
        square_size: u32,
        fractions: &EdgeFractions,
    )
        requires
            old(self).positions.len() + point_count(polygons_of(polygons@)) <= u32::MAX,
            col < u32::MAX,
            row < u32::MAX,
            fractions@.is_edge_sized(),
        ensures
            final(self)@ == old(self)@.push_polygons(
                template_points(
                    polygons_of(polygons@),
                    col as int,
                    row as int,
                    square_size as int,
                    fractions@,
                ),
            ),
            final(self).positions.len() == old(self).positions.len() + point_count(
                polygons_of(polygons@),
            ),
    {
        let ghost before = *self;
        let ghost template = polygons_of(polygons@);
        let ghost points = template_points(
            template,
            col as int,
            row as int,
            square_size as int,
            fractions@,
        );
        let mut i: usize = 0;
        while i < polygons.len()
            invariant
                i <= polygons.len(),
                template == polygons_of(polygons@),
                points == template_points(
                    template,
                    col as int,
                    row as int,
                    square_size as int,
                    fractions@,
                ),
                before.positions.len() + point_count(template) <= u32::MAX,
                col < u32::MAX,
                row < u32::MAX,
                fractions@.is_edge_sized(),
                self@ == before@.push_polygons(points.take(i as int)),
                self.positions.len() == before.positions.len() + point_count(
                    template.take(i as int),
                ),
            decreases polygons.len() - i,
        {
            proof {
                lemma_point_count_prefix(template, i as int + 1);
                assert(template.take(i + 1).drop_last() =~= template.take(i as int));
                assert(points.take(i + 1).drop_last() =~= points.take(i as int));
            }
            self.push_polygon(&polygons[i], col, row, square_size, fractions);
            i = i + 1;
        }
        proof {
            assert(points.take(i as int) =~= points);
            assert(template.take(i as int) =~= template);
        }
    }

    /// Hands out the four buffers: positions, normals, texture coordinates
    /// and indices.
    pub fn into_buffers(self) -> (buffers: (Vec<Position>, Vec<Normal>, Vec<TexCoord>, Vec<u32>))
        ensures
            buffers.0 == self.positions,
            buffers.1 == self.normals,
            buffers.2 == self.uvs,
            buffers.3 == self.indices,
    {
        (self.positions, self.normals, self.uvs, self.indices)
    }
}

} // verus!
