//! The scalar grid: a rectangle of fixed-point samples, one per lattice vertex.
//!
//! A sample is a signed fixed-point number with sixteen fractional bits, so
//! that [`SAMPLE_ONE`] stands for `1.0` and [`ISOVALUE`] for the threshold
//! `0.5` that separates the inside of the contour from the outside.

use vstd::prelude::*;

verus! {

/// The sample that stands for `1.0`.
pub const SAMPLE_ONE: i32 = 65536;

/// The threshold: a lattice vertex is inside the contour when its sample is
/// at least this value, which stands for `0.5`.
pub const ISOVALUE: i32 = 32768;

/// The side of the square domain of the field, in world units. The domain is
/// centred on the world origin, and the grid starts at its corner: the
/// lattice vertex `(0, 0)` lies at `(-DOMAIN_SIZE / 2, -DOMAIN_SIZE / 2)`.
pub const DOMAIN_SIZE: u32 = 600;

/// The world coordinate of the first lattice line, along `x` and along `y`:
/// half a domain before the origin.
pub open spec fn domain_start() -> int {
    -300
}

/// The domain starts half its size before the origin, and so ends half its
/// size after it.
pub proof fn lemma_domain_is_centred()
    ensures
        2 * domain_start() == -(DOMAIN_SIZE as int),
        domain_start() + DOMAIN_SIZE == -domain_start(),
{
}

/// Why a table of samples is not a grid.
#[derive(Clone, Copy, Debug, PartialEq, Eq)]
pub enum GridError {
    /// Row `row` is the first whose length differs from that of row 0.
    RaggedRow { row: usize },
}

/// The rows of samples held by nested vectors, as nested sequences.
pub open spec fn rows_of(table: Seq<Vec<i32>>) -> Seq<Seq<i32>> {
    Seq::new(table.len(), |i: int| table[i]@)
}

/// Every row is as long as the first.
pub open spec fn is_rectangular(samples: Seq<Seq<i32>>) -> bool {
    forall|i: int| 0 <= i < samples.len() ==> (#[trigger] samples[i]).len() == samples[0].len()
}

/// Row `row` is the first whose length differs from that of row 0.
pub open spec fn is_first_ragged_row(samples: Seq<Seq<i32>>, row: int) -> bool {
    &&& 0 < row < samples.len()
    &&& samples[row].len() != samples[0].len()
    &&& forall|i: int| 0 <= i < row ==> (#[trigger] samples[i]).len() == samples[0].len()
}

/// The number of rows of cells: one less than the number of rows of samples.
pub open spec fn cell_rows(samples: Seq<Seq<i32>>) -> nat {
    if samples.len() == 0 {
        0
    } else {
        (samples.len() - 1) as nat
    }
}

/// The number of columns of cells: one less than the length of a row of samples.
pub open spec fn cell_cols(samples: Seq<Seq<i32>>) -> nat {
    if samples.len() == 0 || samples[0].len() == 0 {
        0
    } else {
        (samples[0].len() - 1) as nat
    }
}

/// A rectangular grid of samples, row-major, indexed `[row][col]`.
///
/// A grid of `rows + 1` by `cols + 1` samples has `rows` by `cols` cells. The
/// cell `(row, col)` has its four corners at the samples `(row, col)`,
/// `(row, col + 1)`, `(row + 1, col + 1)` and `(row + 1, col)`.
#[derive(Clone, Debug)]
pub struct ScalarGrid {
    samples: Vec<Vec<i32>>,
}

impl View for ScalarGrid {
    type V = Seq<Seq<i32>>;

    closed spec fn view(&self) -> Seq<Seq<i32>> {
        rows_of(self.samples@)
    }
}

impl ScalarGrid {
    /// The grid is rectangular.
    pub open spec fn wf(&self) -> bool {
        is_rectangular(self@)
    }

    /// Makes a grid of a table of samples. A table whose rows differ in length
    /// is rejected, with the first row that differs from row 0; every other
    /// table is accepted, the empty one and those without a cell too.
    pub fn new(samples: Vec<Vec<i32>>) -> (r: Result<ScalarGrid, GridError>)
        ensures
            r is Ok <==> is_rectangular(rows_of(samples@)),
            match r {
                Ok(grid) => grid.wf() && grid@ == rows_of(samples@),
                Err(GridError::RaggedRow { row }) => is_first_ragged_row(
                    rows_of(samples@),
                    row as int,
                ),
            },
    {
        let mut i: usize = 1;
        while i < samples.len()
            invariant
                1 <= i,
                forall|k: int|
                    0 <= k < i && k < samples.len() ==> (#[trigger] rows_of(samples@)[k]).len()
                        == rows_of(samples@)[0].len(),
            decreases samples.len() - i,
        {
            if samples[i].len() != samples[0].len() {
                assert(rows_of(samples@)[i as int].len() != rows_of(samples@)[0].len());
                return Err(GridError::RaggedRow { row: i });
            }
            i = i + 1;
        }
        Ok(ScalarGrid { samples })
    }

    /// The number of rows of cells.
    pub fn rows(&self) -> (n: usize)
        ensures
            n == cell_rows(self@),
    {
        if self.samples.len() == 0 {
            0
        } else {
            self.samples.len() - 1
        }
    }

    /// The number of columns of cells.
    pub fn cols(&self) -> (n: usize)
        ensures
            n == cell_cols(self@),
    {
        if self.samples.len() == 0 || self.samples[0].len() == 0 {
            0
        } else {
            self.samples[0].len() - 1
        }
    }

    /// The sample at lattice vertex `(row, col)`.
    pub fn sample(&self, row: usize, col: usize) -> (s: i32)
        requires
            row < self@.len(),
            col < self@[row as int].len(),
        ensures
            s == self@[row as int][col as int],
    {
        self.samples[row][col]
    }
}

/// In a rectangular grid every lattice vertex from `(0, 0)` to
/// `(rows, cols)` has a sample, as soon as there is one cell in each direction.
pub proof fn lemma_cell_corners_exist(samples: Seq<Seq<i32>>, row: int, col: int)
    requires
        is_rectangular(samples),
        0 <= row <= cell_rows(samples),
        0 <= col <= cell_cols(samples),
        cell_rows(samples) > 0,
        cell_cols(samples) > 0,
    ensures
        row < samples.len(),
        col < samples[row].len(),
{
}

} // verus!
