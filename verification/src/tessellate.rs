//! The tessellator: from a grid of samples to a triangle mesh.
//!
//! The cells are visited row by row, and in each row from left to right. Each
//! cell appends the polygons of its case to the mesh, with vertices of its
//! own. The mesh is a function of the samples, the cell size and the
//! interpolation switch, and of nothing else.

use crate::cell::case_index;
use crate::cell::cell_case;
use crate::cell::edge_fractions;
use crate::cell::edge_ratios;
use crate::cell::is_inside;
use crate::cell::lemma_case_index_range;
use crate::cell::Point;
use crate::cell::Position;
use crate::grid::cell_cols;
use crate::grid::cell_rows;
use crate::grid::is_rectangular;
use crate::grid::ScalarGrid;
use crate::geometry::lattice_point;
use crate::geometry::lemma_corner_positions;
use crate::mesh::fan_indices;
use crate::mesh::lemma_push_polygons;
use crate::mesh::lemma_template_points_count;
use crate::mesh::no_point_off_plane;
use crate::mesh::template_points;
use crate::mesh::Mesh;
use crate::mesh::MeshModel;
use crate::mesh::Normal;
use crate::mesh::TexCoord;
use crate::template::case_polygons;
use crate::template::case_template;
use crate::template::lemma_case_polygons_shape;
use crate::template::lemma_case_triangle_count;
use crate::template::points_per_case;
use crate::template::triangles_per_case;
use crate::winding::lemma_tessellation_faces_up;
use crate::winding::lemma_tessellation_strictly_counter_clockwise;
use vstd::arithmetic::div_mod::lemma_fundamental_div_mod_converse;
use vstd::prelude::*;

verus! {

/// The number of cells along one side of a square domain: as many whole
/// cells as fit. A cell size of zero gives no cell.
pub fn cells_per_side(domain_size: u32, square_size: u32) -> (cells: u32)
    ensures
        square_size == 0 ==> cells == 0,
        square_size > 0 ==> cells == domain_size as int / square_size as int,
{
    if square_size == 0 {
        0
    } else {
        domain_size / square_size
    }
}

/// The case of the cell `(row, col)`.
pub open spec fn cell_case_at(samples: Seq<Seq<i32>>, row: int, col: int) -> int {
    case_index(
        samples[row][col] as int,
        samples[row][col + 1] as int,
        samples[row + 1][col + 1] as int,
        samples[row + 1][col] as int,
    )
}

/// The polygons that the cell `(row, col)` contributes, as world positions.
pub open spec fn cell_points(
    samples: Seq<Seq<i32>>,
    row: int,
    col: int,
    size: int,
    lerped: bool,
) -> Seq<Seq<Point>> {
    template_points(
        case_polygons(cell_case_at(samples, row, col)),
        col,
        row,
        size,
        edge_ratios(
            samples[row][col] as int,
            samples[row][col + 1] as int,
            samples[row + 1][col + 1] as int,
            samples[row + 1][col] as int,
            lerped,
        ),
    )
}

/// The mesh of the first `cells` cells in row-major order: cell number `k`
/// is the cell `(k / cols, k % cols)`.
pub open spec fn cells_prefix(
    samples: Seq<Seq<i32>>,
    size: int,
    lerped: bool,
    cells: nat,
) -> MeshModel
    decreases cells,
{
    if cells == 0 {
        MeshModel::empty()
    } else {
        let k = cells - 1;
        let cols = cell_cols(samples) as int;
        cells_prefix(samples, size, lerped, k as nat).push_polygons(
            cell_points(samples, k / cols, k % cols, size, lerped),
        )
    }
}

/// The mesh of a grid: the polygons of all its cells, in row-major order. A
/// cell size that is not positive gives the empty mesh, and so does a grid
/// without a cell.
pub open spec fn tessellation(samples: Seq<Seq<i32>>, size: int, lerped: bool) -> MeshModel {
    if size <= 0 {
        MeshModel::empty()
    } else {
        cells_prefix(samples, size, lerped, cell_rows(samples) * cell_cols(samples))
    }
}

/// The mathematical content of four buffers.
pub open spec fn buffers_model(
    buffers: (Vec<Position>, Vec<Normal>, Vec<TexCoord>, Vec<u32>),
) -> MeshModel {
    MeshModel {
        positions: buffers.0@.map_values(|p: Position| p@),
        normals: buffers.1@,
        uvs: buffers.2@,
        indices: buffers.3@.map_values(|i: u32| i as int),
    }
}

/// Cell number `row * cols + col` is the cell `(row, col)`. In a grid of at
/// most `u32::MAX / 6` cells, six vertices for each cell up to this one stay
/// within the range of a 32-bit index, and the numbers of the lattice lines
/// of the grid do so too.
proof fn lemma_cell_number(row: int, col: int, rows: int, cols: int)
    requires
        0 <= row < rows,
        0 <= col < cols,
        6 * rows * cols <= u32::MAX,
    ensures
        (row * cols + col) / cols == row,
        (row * cols + col) % cols == col,
        0 <= row * cols + col,
        6 * (row * cols + col) + 6 <= u32::MAX,
        rows <= u32::MAX,
        cols <= u32::MAX,
{
    lemma_fundamental_div_mod_converse(row * cols + col, cols, row, col);
    assert(0 <= row * cols && row * cols + cols <= rows * cols && cols <= rows * cols && rows
        <= rows * cols && 6 * rows * cols == 6 * (rows * cols)) by (nonlinear_arith)
        requires
            0 <= row < rows,
            0 < cols,
    ;
}

/// The first cell of the next row follows the last cell of this row.
proof fn lemma_next_row(row: int, cols: int)
    ensures
        (row + 1) * cols == row * cols + cols,
{
    assert((row + 1) * cols == row * cols + cols) by (nonlinear_arith);
}

/// Tessellates a grid: the triangle mesh of the region where the samples
/// reach the threshold, as positions, normals, texture coordinates and
/// triangle indices.
///
/// `square_size` is the side of a cell in world units. The grid starts at
/// the corner of the domain: the lattice vertex `(row, col)` lies at
/// `(col * square_size - DOMAIN_SIZE / 2, row * square_size - DOMAIN_SIZE / 2)`.
/// With `lerped` on, the contour crosses each edge where
/// linear interpolation between the two corner samples meets the threshold;
/// with `lerped` off, it crosses each edge in the middle.
///
/// The mesh is well formed: every index refers to a vertex, the indices come
/// in threes, and there are as many normals and texture coordinates as
/// positions. It is flat, and every triangle runs counter-clockwise or has
/// no area; without interpolation every triangle has an area.
///
/// The indices are 32 bits wide and a cell has up to six vertices, so the
/// grid may have at most `u32::MAX / 6` cells.
pub fn generate_vertices(grid: &ScalarGrid, square_size: u32, lerped: bool) -> (buffers: (
    Vec<Position>,
    Vec<Normal>,
    Vec<TexCoord>,
    Vec<u32>,
))
    requires
        grid.wf(),
        square_size > 0 ==> 6 * cell_rows(grid@) * cell_cols(grid@) <= u32::MAX,
    ensures
        buffers_model(buffers) == tessellation(grid@, square_size as int, lerped),
        buffers_model(buffers).well_formed(),
        buffers_model(buffers).is_flat(),
        buffers_model(buffers).faces_up(),
        !lerped ==> buffers_model(buffers).strictly_faces_up(),
        buffers.1@.len() == buffers.0@.len(),
        buffers.2@.len() == buffers.0@.len(),
        buffers.3@.len() % 3 == 0,
        forall|i: int| 0 <= i < buffers.3@.len() ==> (#[trigger] buffers.3@[i]) < buffers.0@.len(),
{
    let mut mesh = Mesh::new();
    proof {
        lemma_tessellation_well_formed(grid@, square_size as int, lerped);
        lemma_tessellation_faces_up(grid@, square_size as int, lerped);
        if !lerped {
            lemma_tessellation_strictly_counter_clockwise(grid@, square_size as int);
        }
    }
    if square_size == 0 {
        return mesh.into_buffers();
    }
    let rows: usize = grid.rows();
    let cols: usize = grid.cols();
    let ghost samples = grid@;
    let ghost size = square_size as int;
    let mut row: usize = 0;
    while row < rows
        invariant
            row <= rows,
            rows == cell_rows(samples),
            cols == cell_cols(samples),
            samples == grid@,
            is_rectangular(samples),
            size == square_size,
            6 * rows * cols <= u32::MAX,
            mesh@ == cells_prefix(samples, size, lerped, (row * cols) as nat),
            mesh.positions.len() <= 6 * (row * cols),
        decreases rows - row,
    {
        let mut col: usize = 0;
        while col < cols
            invariant
                row < rows,
                col <= cols,
                rows == cell_rows(samples),
                cols == cell_cols(samples),
                samples == grid@,
                is_rectangular(samples),
                size == square_size,
                6 * rows * cols <= u32::MAX,
                mesh@ == cells_prefix(samples, size, lerped, (row * cols + col) as nat),
                mesh.positions.len() <= 6 * (row * cols + col),
            decreases cols - col,
        {
            proof {
                lemma_cell_number(row as int, col as int, rows as int, cols as int);
            }
            let top_left = grid.sample(row, col);
            let top_right = grid.sample(row, col + 1);
            let bottom_right = grid.sample(row + 1, col + 1);
            let bottom_left = grid.sample(row + 1, col);
            let case = cell_case(top_left, top_right, bottom_right, bottom_left);
            let fractions = edge_fractions(top_left, top_right, bottom_right, bottom_left, lerped);
            let polygons = case_template(case);
            let cell_col: u32 = col as u32;
            let cell_row: u32 = row as u32;
            proof {
                lemma_case_polygons_shape(case as int);
            }
            mesh.push_polygons(&polygons, cell_col, cell_row, square_size, &fractions);
            col = col + 1;
        }
        proof {
            lemma_next_row(row as int, cols as int);
        }
        row = row + 1;
    }
    proof {
        let model = tessellation(grid@, square_size as int, lerped);
        assert(mesh@ == model);
        assert forall|i: int| 0 <= i < mesh.indices@.len() implies (#[trigger] mesh.indices@[i])
            < mesh.positions@.len() by {
            assert(model.indices[i] == mesh.indices@[i] as int);
        }
    }
    mesh.into_buffers()
}

/// The number of vertices that the first `cells` cells contribute: the
/// sum, over these cells, of the number of vertices of their cases.
pub open spec fn vertices_in_cells(samples: Seq<Seq<i32>>, cells: nat) -> nat
    decreases cells,
{
    if cells == 0 {
        0
    } else {
        let k = cells - 1;
        let cols = cell_cols(samples) as int;
        vertices_in_cells(samples, k as nat) + points_per_case()[cell_case_at(
            samples,
            k / cols,
            k % cols,
        )]
    }
}

/// The number of triangles that the first `cells` cells contribute: the
/// sum, over these cells, of the number of triangles of their cases.
pub open spec fn triangles_in_cells(samples: Seq<Seq<i32>>, cells: nat) -> nat
    decreases cells,
{
    if cells == 0 {
        0
    } else {
        let k = cells - 1;
        let cols = cell_cols(samples) as int;
        triangles_in_cells(samples, k as nat) + triangles_per_case()[cell_case_at(
            samples,
            k / cols,
            k % cols,
        )]
    }
}

/// Every sample of the grid is below the threshold.
pub open spec fn all_outside(samples: Seq<Seq<i32>>) -> bool {
    forall|row: int, col: int|
        0 <= row < samples.len() && 0 <= col < samples[row].len() ==> !is_inside(
            #[trigger] samples[row][col] as int,
        )
}

/// Every sample of the grid reaches the threshold.
pub open spec fn all_inside(samples: Seq<Seq<i32>>) -> bool {
    forall|row: int, col: int|
        0 <= row < samples.len() && 0 <= col < samples[row].len() ==> is_inside(
            #[trigger] samples[row][col] as int,
        )
}

/// The polygons of a cell lie in the plane `z = 0`.
proof fn lemma_cell_points_on_plane(
    samples: Seq<Seq<i32>>,
    row: int,
    col: int,
    size: int,
    lerped: bool,
)
    ensures
        no_point_off_plane(cell_points(samples, row, col, size, lerped)),
{
}

/// The mesh of any number of cells is well formed and flat: the buffers of
/// vertex data are equally long, the indices come in threes, and each refers
/// to a vertex of the mesh. Its vertices and triangles are as many as the
/// cases of the cells give.
pub proof fn lemma_cells_prefix(samples: Seq<Seq<i32>>, size: int, lerped: bool, cells: nat)
    ensures
        cells_prefix(samples, size, lerped, cells).well_formed(),
        cells_prefix(samples, size, lerped, cells).is_flat(),
        cells_prefix(samples, size, lerped, cells).positions.len() == vertices_in_cells(
            samples,
            cells,
        ),
        cells_prefix(samples, size, lerped, cells).indices.len() == 3 * triangles_in_cells(
            samples,
            cells,
        ),
    decreases cells,
{
    if cells > 0 {
        let k = cells - 1;
        let cols = cell_cols(samples) as int;
        let row = k / cols;
        let col = k % cols;
        let earlier = cells_prefix(samples, size, lerped, k as nat);
        let points = cell_points(samples, row, col, size, lerped);
        let case = cell_case_at(samples, row, col);
        lemma_cells_prefix(samples, size, lerped, k as nat);
        lemma_cell_points_on_plane(samples, row, col, size, lerped);
        lemma_push_polygons(earlier, points);
        lemma_case_index_range(
            samples[row][col] as int,
            samples[row][col + 1] as int,
            samples[row + 1][col + 1] as int,
            samples[row + 1][col] as int,
        );
        lemma_case_triangle_count(case);
        lemma_template_points_count(
            case_polygons(case),
            col,
            row,
            size,
            edge_ratios(
                samples[row][col] as int,
                samples[row][col + 1] as int,
                samples[row + 1][col + 1] as int,
                samples[row + 1][col] as int,
                lerped,
            ),
        );
    }
}

/// Every mesh that the tessellator gives is well formed and flat: every
/// index refers to a vertex, the indices come in threes, and positions,
/// normals and texture coordinates are equally many. It has three indices
/// for each triangle that the cases of its cells call for.
pub proof fn lemma_tessellation_well_formed(samples: Seq<Seq<i32>>, size: int, lerped: bool)
    ensures
        tessellation(samples, size, lerped).well_formed(),
        tessellation(samples, size, lerped).is_flat(),
        size > 0 ==> tessellation(samples, size, lerped).positions.len() == vertices_in_cells(
            samples,
            cell_rows(samples) * cell_cols(samples),
        ),
        size > 0 ==> tessellation(samples, size, lerped).indices.len() == 3 * triangles_in_cells(
            samples,
            cell_rows(samples) * cell_cols(samples),
        ),
{
    lemma_cells_prefix(samples, size, lerped, cell_rows(samples) * cell_cols(samples));
}

/// The mesh depends on nothing but the samples, the cell size and the
/// interpolation switch: equal inputs give equal meshes, vertex for vertex
/// and index for index.
pub proof fn lemma_tessellation_deterministic(
    first: Seq<Seq<i32>>,
    second: Seq<Seq<i32>>,
    size: int,
    lerped: bool,
)
    requires
        first =~~= second,
    ensures
        tessellation(first, size, lerped) == tessellation(second, size, lerped),
{
}

/// Cell number `k` of a grid with `rows` by `cols` cells lies in the grid.
proof fn lemma_cell_in_grid(k: int, rows: int, cols: int)
    requires
        0 <= k < rows * cols,
        0 <= rows,
        0 <= cols,
    ensures
        0 < cols,
        0 <= k / cols < rows,
        0 <= k % cols < cols,
{
    assert(0 < cols && 0 <= k / cols < rows && 0 <= k % cols < cols) by (nonlinear_arith)
        requires
            0 <= k < rows * cols,
            0 <= rows,
            0 <= cols,
    ;
}

/// The first `cells` cells of a field that is below the threshold everywhere
/// give no vertex.
proof fn lemma_cells_outside(samples: Seq<Seq<i32>>, size: int, lerped: bool, cells: nat)
    requires
        is_rectangular(samples),
        all_outside(samples),
        cells <= cell_rows(samples) * cell_cols(samples),
    ensures
        cells_prefix(samples, size, lerped, cells) == MeshModel::empty(),
    decreases cells,
{
    if cells > 0 {
        let k = cells - 1;
        let cols = cell_cols(samples) as int;
        let rows = cell_rows(samples) as int;
        lemma_cell_in_grid(k, rows, cols);
        let row = k / cols;
        let col = k % cols;
        lemma_cells_outside(samples, size, lerped, k as nat);
        assert(!is_inside(samples[row][col] as int));
        assert(!is_inside(samples[row][col + 1] as int));
        assert(!is_inside(samples[row + 1][col + 1] as int));
        assert(!is_inside(samples[row + 1][col] as int));
        assert(cell_case_at(samples, row, col) == 0);
        assert(cell_points(samples, row, col, size, lerped) =~= Seq::empty());
    }
}

/// A field that is below the threshold everywhere gives the empty mesh.
pub proof fn lemma_field_below_threshold(samples: Seq<Seq<i32>>, size: int, lerped: bool)
    requires
        is_rectangular(samples),
        all_outside(samples),
    ensures
        tessellation(samples, size, lerped) == MeshModel::empty(),
{
    lemma_cells_outside(samples, size, lerped, cell_rows(samples) * cell_cols(samples));
}

/// The first `cells` cells of a field that reaches the threshold everywhere
/// give four vertices and two triangles each.
proof fn lemma_cells_inside(samples: Seq<Seq<i32>>, cells: nat)
    requires
        is_rectangular(samples),
        all_inside(samples),
        cells <= cell_rows(samples) * cell_cols(samples),
    ensures
        vertices_in_cells(samples, cells) == 4 * cells,
        triangles_in_cells(samples, cells) == 2 * cells,
    decreases cells,
{
    if cells > 0 {
        let k = cells - 1;
        let cols = cell_cols(samples) as int;
        let rows = cell_rows(samples) as int;
        lemma_cell_in_grid(k, rows, cols);
        let row = k / cols;
        let col = k % cols;
        lemma_cells_inside(samples, k as nat);
        assert(is_inside(samples[row][col] as int));
        assert(is_inside(samples[row][col + 1] as int));
        assert(is_inside(samples[row + 1][col + 1] as int));
        assert(is_inside(samples[row + 1][col] as int));
        assert(cell_case_at(samples, row, col) == 15);
    }
}

/// A field that reaches the threshold everywhere gives a full square in
/// every cell: four vertices and two triangles for each cell of the grid,
/// and no vertex shared between two cells.
pub proof fn lemma_field_above_threshold(samples: Seq<Seq<i32>>, size: int, lerped: bool)
    requires
        is_rectangular(samples),
        all_inside(samples),
        size > 0,
    ensures
        tessellation(samples, size, lerped).positions.len() == 4 * (cell_rows(samples)
            * cell_cols(samples)),
        tessellation(samples, size, lerped).indices.len() == 6 * (cell_rows(samples) * cell_cols(
            samples,
        )),
{
    let cells = cell_rows(samples) * cell_cols(samples);
    lemma_cells_prefix(samples, size, lerped, cells);
    lemma_cells_inside(samples, cells);
}

/// The mesh of more cells begins with the mesh of fewer cells: what a cell
/// has appended stays where it is.
pub proof fn lemma_cells_prefix_extends(
    samples: Seq<Seq<i32>>,
    size: int,
    lerped: bool,
    fewer: nat,
    more: nat,
)
    requires
        fewer <= more,
    ensures
        cells_prefix(samples, size, lerped, fewer).positions.len() <= cells_prefix(
            samples,
            size,
            lerped,
            more,
        ).positions.len(),
        cells_prefix(samples, size, lerped, fewer).indices.len() <= cells_prefix(
            samples,
            size,
            lerped,
            more,
        ).indices.len(),
        forall|i: int|
            0 <= i < cells_prefix(samples, size, lerped, fewer).positions.len() ==> cells_prefix(
                samples,
                size,
                lerped,
                more,
            ).positions[i] == cells_prefix(samples, size, lerped, fewer).positions[i],
        forall|i: int|
            0 <= i < cells_prefix(samples, size, lerped, fewer).indices.len() ==> cells_prefix(
                samples,
                size,
                lerped,
                more,
            ).indices[i] == cells_prefix(samples, size, lerped, fewer).indices[i],
    decreases more,
{
    if fewer < more {
        let k = more - 1;
        let cols = cell_cols(samples) as int;
        lemma_cells_prefix_extends(samples, size, lerped, fewer, k as nat);
        lemma_cells_prefix(samples, size, lerped, k as nat);
        lemma_push_polygons(
            cells_prefix(samples, size, lerped, k as nat),
            cell_points(samples, k / cols, k % cols, size, lerped),
        );
    }
}

/// In a field that reaches the threshold everywhere, the cell `(row, col)`
/// owns four vertices and six indices of the mesh. The vertices are the four
/// corners of the cell's square, which lies `col` and `row` cells on from the
/// start of the domain, and the indices make the two triangles that tile it.
pub proof fn lemma_full_field_tiles(
    samples: Seq<Seq<i32>>,
    size: int,
    lerped: bool,
    row: int,
    col: int,
)
    requires
        is_rectangular(samples),
        all_inside(samples),
        size > 0,
        0 <= row < cell_rows(samples),
        0 <= col < cell_cols(samples),
    ensures
        ({
            let mesh = tessellation(samples, size, lerped);
            let k = row * cell_cols(samples) + col;
            &&& 0 <= k
            &&& 4 * k + 4 <= mesh.positions.len()
            &&& 6 * k + 6 <= mesh.indices.len()
            &&& mesh.positions[4 * k] == lattice_point(col, row, size)
            &&& mesh.positions[4 * k + 1] == lattice_point(col + 1, row, size)
            &&& mesh.positions[4 * k + 2] == lattice_point(col + 1, row + 1, size)
            &&& mesh.positions[4 * k + 3] == lattice_point(col, row + 1, size)
            &&& mesh.indices[6 * k] == 4 * k
            &&& mesh.indices[6 * k + 1] == 4 * k + 1
            &&& mesh.indices[6 * k + 2] == 4 * k + 2
            &&& mesh.indices[6 * k + 3] == 4 * k
            &&& mesh.indices[6 * k + 4] == 4 * k + 2
            &&& mesh.indices[6 * k + 5] == 4 * k + 3
        }),
{
    let rows = cell_rows(samples) as int;
    let cols = cell_cols(samples) as int;
    let k = row * cols + col;
    lemma_fundamental_div_mod_converse(k, cols, row, col);
    assert(0 <= row * cols && row * cols + cols <= rows * cols) by (nonlinear_arith)
        requires
            0 <= row < rows,
            0 < cols,
    ;
    let earlier = cells_prefix(samples, size, lerped, k as nat);
    let with_cell = cells_prefix(samples, size, lerped, (k + 1) as nat);
    let points = cell_points(samples, row, col, size, lerped);
    lemma_cells_prefix(samples, size, lerped, k as nat);
    lemma_cells_inside(samples, k as nat);
    lemma_cells_inside(samples, (k + 1) as nat);
    lemma_cells_prefix(samples, size, lerped, (k + 1) as nat);
    assert(cell_case_at(samples, row, col) == 15) by {
        assert(is_inside(samples[row][col] as int));
        assert(is_inside(samples[row][col + 1] as int));
        assert(is_inside(samples[row + 1][col + 1] as int));
        assert(is_inside(samples[row + 1][col] as int));
    }
    let fractions = edge_ratios(
        samples[row][col] as int,
        samples[row][col + 1] as int,
        samples[row + 1][col + 1] as int,
        samples[row + 1][col] as int,
        lerped,
    );
    lemma_corner_positions(col, row, size, fractions);
    assert(points.len() == 1);
    assert(points[0].len() == 4);
    assert(points.drop_last() =~= Seq::empty());
    assert(with_cell == earlier.push_polygons(points));
    assert(earlier.push_polygons(points) == earlier.push_polygon(points[0])) by {
        reveal_with_fuel(MeshModel::push_polygons, 2);
    }
    assert(fan_indices(4 * k, 4) =~= seq![4 * k, 4 * k + 1, 4 * k + 2, 4 * k, 4 * k + 2, 4 * k + 3])
        by {
        reveal_with_fuel(fan_indices, 3);
    }
    lemma_cells_prefix_extends(samples, size, lerped, (k + 1) as nat, (rows * cols) as nat);
}

} // verus!
