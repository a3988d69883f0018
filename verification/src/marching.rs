//! The pipeline: samples, inside flags, topology codes and the point
//! sequences of the cells.
//!
//! A grid of partition size `n` has `n` by `n` nodes and `n - 1` by `n - 1`
//! cells. Samples and the isovalue are integers; only their order matters
//! here. Where a contour point lies on its edge is for the caller to
//! interpolate: a point sequence names, for every point, the edge and the
//! direction of the interpolation.

use crate::cell::ContourPoint;
use crate::field::{allocatable, covers, is_grid, lemma_allocatable_smaller, within};
use crate::field::{ByteField, SegmentField, ValueField};
use crate::topology::{cell_points, cell_points_spec, cuts_two_corners, pack, topology_code};
use vstd::prelude::*;

verus! {

/// The flag of a node: 1 (inside) where its sample exceeds the isovalue,
/// else 0 (outside). A sample equal to the isovalue lies outside.
pub open spec fn flag(value: i64, isovalue: i64) -> u8 {
    if value > isovalue {
        1
    } else {
        0
    }
}

/// The flags of all nodes of a field of samples.
pub open spec fn binarize(values: Seq<Seq<i64>>, isovalue: i64) -> Seq<Seq<u8>> {
    Seq::new(
        values.len(),
        |i: int| Seq::new(values[i].len(), |j: int| flag(values[i][j], isovalue)),
    )
}

/// Whether every entry is 0 or 1.
pub open spec fn is_binary(flags: Seq<Seq<u8>>) -> bool {
    forall|i: int, j: int|
        0 <= i < flags.len() && 0 <= j < flags[i].len() ==> #[trigger] flags[i][j] <= 1
}

/// Whether every entry in the first `size` rows and columns is 0 or 1.
pub open spec fn is_binary_within(flags: Seq<Seq<u8>>, size: int) -> bool {
    forall|i: int, j: int| 0 <= i < size && 0 <= j < size ==> #[trigger] flags[i][j] <= 1
}

/// A field of flags made `size` by `size` entries large: what lies beyond
/// the flags is 0.
pub open spec fn padded(flags: Seq<Seq<u8>>, size: int) -> Seq<Seq<u8>> {
    Seq::new(
        size as nat,
        |i: int|
            Seq::new(
                size as nat,
                |j: int|
                    if i < flags.len() && j < flags[i].len() {
                        flags[i][j]
                    } else {
                        0u8
                    },
            ),
    )
}

/// The topology code of cell `(i, j)`: its four corner flags, packed.
pub open spec fn cell_code(flags: Seq<Seq<u8>>, i: int, j: int) -> int {
    pack(
        flags[i][j] as int,
        flags[i][j + 1] as int,
        flags[i + 1][j + 1] as int,
        flags[i + 1][j] as int,
    )
}

/// Whether all four corners of cell `(i, j)` carry the flag `value`.
pub open spec fn corners_all(flags: Seq<Seq<u8>>, i: int, j: int, value: u8) -> bool {
    &&& flags[i][j] == value
    &&& flags[i][j + 1] == value
    &&& flags[i + 1][j + 1] == value
    &&& flags[i + 1][j] == value
}

/// The number of cells along one side of a grid of `size` nodes a side.
pub open spec fn cells_per_side(size: int) -> nat {
    if size >= 1 {
        (size - 1) as nat
    } else {
        0
    }
}

/// The topology codes of all cells of a grid of `size` by `size` flags.
pub open spec fn encode(flags: Seq<Seq<u8>>, size: int) -> Seq<Seq<u8>> {
    Seq::new(
        cells_per_side(size),
        |i: int| Seq::new(cells_per_side(size), |j: int| cell_code(flags, i, j) as u8),
    )
}

/// The point sequences of all cells of a grid of `size` nodes a side, from
/// the topology codes of the cells.
pub open spec fn contour(codes: Seq<Seq<u8>>, size: int) -> Seq<Seq<Seq<ContourPoint>>> {
    Seq::new(
        cells_per_side(size),
        |i: int| Seq::new(cells_per_side(size), |j: int| cell_points_spec(codes[i][j])),
    )
}

/// The centre of node `(i, j)` of a grid of `size` nodes a side, in units of
/// the half extent divided by `size`: with half extent `l` the centre lies
/// at `x = l * (1 - (2 * j + 1) / size)` and `y = l * ((2 * i + 1) / size - 1)`,
/// which is `l / size` times the pair given here. The column sets `x` and
/// the row sets `y`.
pub open spec fn center(size: int, i: int, j: int) -> (int, int) {
    (size - (2 * j + 1), (2 * i + 1) - size)
}

/// Why a grid cannot be set up.
#[derive(Clone, Copy, Debug, PartialEq, Eq, Structural)]
pub enum ConfigError {
    /// The partition size is below 2: the grid would have no cell.
    PartitionTooSmall,
    /// The fields of a grid of this partition size cannot be allocated.
    PartitionTooLarge,
}

/// The contour of a sampled scalar field at one isovalue, with every stage
/// that led to it. The stages always belong together: the flags are those
/// of the samples, the codes those of the flags, the points those of the
/// codes.
pub struct MarchingSquares {
    partition_size: usize,
    isovalue: i64,
    values_matrix: ValueField,
    boolean_matrix: ByteField,
    index_matrix: ByteField,
    interpol_matrix: SegmentField,
}

impl MarchingSquares {
    /// The number of nodes along one side of the grid.
    pub closed spec fn size(&self) -> usize {
        self.partition_size
    }

    /// The isovalue of the contour.
    pub closed spec fn level(&self) -> i64 {
        self.isovalue
    }

    /// The sample at every node.
    pub closed spec fn samples(&self) -> Seq<Seq<i64>> {
        self.values_matrix@
    }

    /// The flag of every node: 1 inside, 0 outside.
    pub open spec fn flags(&self) -> Seq<Seq<u8>> {
        binarize(self.samples(), self.level())
    }

    /// The topology code of every cell.
    pub open spec fn codes(&self) -> Seq<Seq<u8>> {
        encode(self.flags(), self.size() as int)
    }

    /// The point sequence of every cell.
    pub open spec fn points(&self) -> Seq<Seq<Seq<ContourPoint>>> {
        contour(self.codes(), self.size() as int)
    }

    #[verifier::type_invariant]
    closed spec fn wf(&self) -> bool {
        &&& self.partition_size >= 2
        &&& is_grid(self.values_matrix@, self.partition_size as int, self.partition_size as int)
        &&& self.values_matrix.width() == self.partition_size
        &&& self.boolean_matrix@ == self.flags()
        &&& self.boolean_matrix.width() == self.partition_size
        &&& self.index_matrix@ == self.codes()
        &&& self.index_matrix.width() == self.partition_size - 1
        &&& self.interpol_matrix@ == self.points()
        &&& self.interpol_matrix.width() == self.partition_size - 1
    }

    /// Samples the field at every node of a grid of `partition_size` nodes a
    /// side, `mathematical_function((i, j))` being the sample at node
    /// `(i, j)`, and runs the pipeline on the samples. A partition size
    /// that is too small or too large is refused before any sample is
    /// taken.
    pub fn new<F: Fn((usize, usize)) -> i64>(
        partition_size: usize,
        isovalue: i64,
        mathematical_function: F,
    ) -> (result: Result<MarchingSquares, ConfigError>)
        requires
            forall|i: usize, j: usize|
                i < partition_size && j < partition_size ==> mathematical_function.requires(
                    ((i, j),),
                ),
        ensures
            partition_size < 2 ==> result == Err::<MarchingSquares, ConfigError>(
                ConfigError::PartitionTooSmall,
            ),
            partition_size >= 2 && !allocatable(partition_size as int, partition_size as int)
                ==> result == Err::<MarchingSquares, ConfigError>(ConfigError::PartitionTooLarge),
            partition_size >= 2 && allocatable(partition_size as int, partition_size as int)
                ==> result is Ok,
            result matches Ok(squares) ==> {
                &&& squares.size() == partition_size
                &&& squares.level() == isovalue
                &&& is_grid(squares.samples(), partition_size as int, partition_size as int)
                &&& forall|i: usize, j: usize|
                    i < partition_size && j < partition_size ==> mathematical_function.ensures(
                        ((i, j),),
                        #[trigger] squares.samples()[i as int][j as int],
                    )
            },
    {
        if partition_size < 2 {
            return Err(ConfigError::PartitionTooSmall);
        }
        let values_matrix = match ValueField::from_fn(
            partition_size,
            partition_size,
            mathematical_function,
        ) {
            Some(values) => values,
            None => {
                return Err(ConfigError::PartitionTooLarge);
            },
        };
        let boolean_matrix = Self::boolean_matrix(&values_matrix, partition_size, isovalue);
        let index_matrix = Self::index_matrix(partition_size, &boolean_matrix);
        let interpol_matrix = Self::interpolation_matrix(partition_size, &index_matrix);
        Ok(
            MarchingSquares {
                partition_size,
                isovalue,
                values_matrix,
                boolean_matrix,
                index_matrix,
                interpol_matrix,
            },
        )
    }

    /// The centre of node `(i, j)` of a grid of `psize` nodes a side, in
    /// units of the half extent divided by `psize`. Every component that
    /// places a node or a cell goes by this mapping.
    pub fn center_point(psize: usize, i: usize, j: usize) -> (point: (i128, i128))
        ensures
            point.0 == center(psize as int, i as int, j as int).0,
            point.1 == center(psize as int, i as int, j as int).1,
    {
        let size: i128 = psize as i128;
        let row: i128 = i as i128;
        let col: i128 = j as i128;
        (size - (2 * col + 1), (2 * row + 1) - size)
    }

    /// The number of nodes along one side of the grid.
    pub fn partition_size(&self) -> (size: usize)
        ensures
            size == self.size(),
            size >= 2,
    {
        proof {
            use_type_invariant(self);
        }
        self.partition_size
    }

    /// The isovalue of the contour.
    pub fn isovalue(&self) -> (level: i64)
        ensures
            level == self.level(),
    {
        self.isovalue
    }

    /// The sample at every node: `size` by `size` entries.
    pub fn values_matrix(&self) -> (values: &ValueField)
        ensures
            values@ == self.samples(),
            is_grid(values@, self.size() as int, self.size() as int),
            values.width() == self.size(),
    {
        proof {
            use_type_invariant(self);
        }
        &self.values_matrix
    }

    /// The flag of every node: `size` by `size` entries, 1 inside and 0
    /// outside.
    pub fn flag_matrix(&self) -> (flags: &ByteField)
        ensures
            flags@ == self.flags(),
            is_grid(flags@, self.size() as int, self.size() as int),
            flags.width() == self.size(),
    {
        proof {
            use_type_invariant(self);
        }
        &self.boolean_matrix
    }

    /// The topology code of every cell: `size - 1` by `size - 1` entries.
    pub fn code_matrix(&self) -> (codes: &ByteField)
        ensures
            codes@ == self.codes(),
            is_grid(codes@, self.size() - 1, self.size() - 1),
            codes.width() == self.size() - 1,
    {
        proof {
            use_type_invariant(self);
        }
        &self.index_matrix
    }

    /// The point sequence of every cell: `size - 1` by `size - 1` entries.
    pub fn interpol_matrix(&self) -> (points: &SegmentField)
        ensures
            points@ == self.points(),
            is_grid(points@, self.size() - 1, self.size() - 1),
            points.width() == self.size() - 1,
    {
        proof {
            use_type_invariant(self);
        }
        &self.interpol_matrix
    }

    /// Classifies every node of a field of samples against the isovalue.
    /// The flags are `n` by `n` entries, `n` being the partition size; the
    /// samples may be fewer, and a node without a sample gets the flag 0.
    pub fn boolean_matrix(
        values_matrix: &ValueField,
        partition_size: usize,
        isovalue: i64,
    ) -> (flags: ByteField)
        requires
            within(values_matrix@, partition_size as int),
            is_grid(values_matrix@, partition_size as int, partition_size as int) || allocatable(
                partition_size as int,
                partition_size as int,
            ),
        ensures
            flags@ == padded(binarize(values_matrix@, isovalue), partition_size as int),
            is_grid(values_matrix@, partition_size as int, partition_size as int) ==> flags@
                == binarize(values_matrix@, isovalue),
            is_grid(flags@, partition_size as int, partition_size as int),
            flags.width() == partition_size,
            is_binary(flags@),
    {
        let n: usize = partition_size;
        let rows: usize = values_matrix.rows();
        let cols: usize = values_matrix.cols();
        proof {
            if rows > 0 {
                assert(values_matrix@[0].len() == cols);
            }
            if is_grid(values_matrix@, n as int, n as int) {
                lemma_allocatable_smaller(n as int, cols as int, n as int, n as int);
            }
        }
        let ghost samples = values_matrix@;
        let mut flags = ByteField::zeros(n, n);
        let mut i: usize = 0;
        while i < rows
            invariant
                i <= rows <= n,
                rows > 0 ==> cols <= n,
                samples == values_matrix@,
                is_grid(samples, rows as int, cols as int),
                is_grid(flags@, n as int, n as int),
                flags.width() == n,
                forall|r: int, c: int|
                    0 <= r < n && 0 <= c < n ==> #[trigger] flags@[r][c] == if r < i && c < cols {
                        flag(samples[r][c], isovalue)
                    } else {
                        0u8
                    },
            decreases rows - i,
        {
            let mut j: usize = 0;
            while j < cols
                invariant
                    i < rows <= n,
                    j <= cols <= n,
                    samples == values_matrix@,
                    is_grid(samples, rows as int, cols as int),
                    is_grid(flags@, n as int, n as int),
                    flags.width() == n,
                    forall|r: int, c: int|
                        0 <= r < n && 0 <= c < n ==> #[trigger] flags@[r][c] == if (r < i && c
                            < cols) || (r == i && c < j) {
                            flag(samples[r][c], isovalue)
                        } else {
                            0u8
                        },
                decreases cols - j,
            {
                let value: i64 = values_matrix.get(i, j).unwrap();
                let inside: u8 = if value > isovalue {
                    1
                } else {
                    0
                };
                let _ = flags.set(i, j, inside);
                j += 1;
            }
            i += 1;
        }
        assert(flags@ =~~= padded(binarize(samples, isovalue), n as int));
        if rows == n && (n == 0 || cols == n) {
            assert(flags@ =~~= binarize(samples, isovalue));
        }
        flags
    }

    /// Packs the corner flags of every cell into its topology code. The
    /// flags are those of the first `n` rows and columns of
    /// `boolean_matrix`, `n` being the partition size, and the result has
    /// `n - 1` by `n - 1` entries. Every code lies between 0 and 15; it is 0
    /// where all four corners lie outside and 15 where all four lie inside.
    pub fn index_matrix(partition_size: usize, boolean_matrix: &ByteField) -> (codes: ByteField)
        requires
            partition_size >= 1,
            covers(boolean_matrix@, partition_size as int),
            is_binary_within(boolean_matrix@, partition_size as int),
        ensures
            codes@ == encode(boolean_matrix@, partition_size as int),
            is_grid(codes@, partition_size - 1, partition_size - 1),
            codes.width() == partition_size - 1,
            forall|i: int, j: int|
                0 <= i < partition_size - 1 && 0 <= j < partition_size - 1 ==> {
                    let code = #[trigger] codes@[i][j];
                    &&& code <= 15
                    &&& code == 0 <==> corners_all(boolean_matrix@, i, j, 0)
                    &&& code == 15 <==> corners_all(boolean_matrix@, i, j, 1)
                },
    {
        let n: usize = partition_size;
        let side: usize = n - 1;
        let rows: usize = boolean_matrix.rows();
        let cols: usize = boolean_matrix.cols();
        proof {
            assert(boolean_matrix@[0].len() == cols);
            lemma_allocatable_smaller(rows as int, cols as int, side as int, side as int);
        }
        let mut codes = ByteField::zeros(side, side);
        let mut i: usize = 0;
        while i < side
            invariant
                i <= side,
                side == n - 1,
                covers(boolean_matrix@, n as int),
                is_binary_within(boolean_matrix@, n as int),
                is_grid(codes@, side as int, side as int),
                codes.width() == side,
                forall|r: int, c: int|
                    0 <= r < i && 0 <= c < side ==> #[trigger] codes@[r][c] == cell_code(
                        boolean_matrix@,
                        r,
                        c,
                    ),
            decreases side - i,
        {
            let mut j: usize = 0;
            while j < side
                invariant
                    i < side,
                    j <= side,
                    side == n - 1,
                    covers(boolean_matrix@, n as int),
                    is_binary_within(boolean_matrix@, n as int),
                    is_grid(codes@, side as int, side as int),
                    codes.width() == side,
                    forall|r: int, c: int|
                        0 <= r < i && 0 <= c < side ==> #[trigger] codes@[r][c] == cell_code(
                            boolean_matrix@,
                            r,
                            c,
                        ),
                    forall|c: int|
                        0 <= c < j ==> #[trigger] codes@[i as int][c] == cell_code(
                            boolean_matrix@,
                            i as int,
                            c,
                        ),
                decreases side - j,
            {
                assert(boolean_matrix@[i as int].len() >= n);
                assert(boolean_matrix@[i + 1].len() >= n);
                let top_left: u8 = boolean_matrix.get(i, j).unwrap();
                let top_right: u8 = boolean_matrix.get(i, j + 1).unwrap();
                let bottom_right: u8 = boolean_matrix.get(i + 1, j + 1).unwrap();
                let bottom_left: u8 = boolean_matrix.get(i + 1, j).unwrap();
                let code: u8 = topology_code(top_left, top_right, bottom_right, bottom_left);
                let _ = codes.set(i, j, code);
                j += 1;
            }
            i += 1;
        }
        assert(codes@ =~~= encode(boolean_matrix@, n as int));
        codes
    }

    /// Gives every cell its point sequence. The codes are those of the
    /// first `n - 1` rows and columns of `index_matrix`, `n` being the
    /// partition size, and the result has `n - 1` by `n - 1` entries: the
    /// sentinel alone for codes 0 and 15, two crossings for a single line,
    /// four for a saddle (codes 5 and 10). An entry above 15 is the code of
    /// no cell and gets an empty sequence.
    ///
    /// The four crossings of a saddle make two segments, the first two and
    /// the last two, and each segment cuts off one of the two inside
    /// corners: both of its crossings run towards that corner.
    pub fn interpolation_matrix(
        partition_size: usize,
        index_matrix: &ByteField,
    ) -> (points: SegmentField)
        requires
            partition_size >= 1,
            covers(index_matrix@, partition_size - 1),
        ensures
            points@ == contour(index_matrix@, partition_size as int),
            is_grid(points@, partition_size - 1, partition_size - 1),
            points.width() == partition_size - 1,
            forall|i: int, j: int|
                0 <= i < partition_size - 1 && 0 <= j < partition_size - 1 && (index_matrix@[i][j]
                    == 5 || index_matrix@[i][j] == 10) ==> cuts_two_corners(
                    #[trigger] points@[i][j],
                ),
    {
        let side: usize = partition_size - 1;
        let rows: usize = index_matrix.rows();
        let cols: usize = index_matrix.cols();
        proof {
            if side > 0 {
                assert(index_matrix@[0].len() == cols);
            }
            lemma_allocatable_smaller(rows as int, cols as int, side as int, side as int);
        }
        let mut points = SegmentField::empty(side, side);
        let mut i: usize = 0;
        while i < side
            invariant
                i <= side,
                covers(index_matrix@, side as int),
                is_grid(points@, side as int, side as int),
                points.width() == side,
                forall|r: int, c: int|
                    0 <= r < i && 0 <= c < side ==> #[trigger] points@[r][c] == cell_points_spec(
                        index_matrix@[r][c],
                    ),
            decreases side - i,
        {
            let mut j: usize = 0;
            while j < side
                invariant
                    i < side,
                    j <= side,
                    covers(index_matrix@, side as int),
                    is_grid(points@, side as int, side as int),
                    points.width() == side,
                    forall|r: int, c: int|
                        0 <= r < i && 0 <= c < side ==> #[trigger] points@[r][c]
                            == cell_points_spec(index_matrix@[r][c]),
                    forall|c: int|
                        0 <= c < j ==> #[trigger] points@[i as int][c] == cell_points_spec(
                            index_matrix@[i as int][c],
                        ),
                decreases side - j,
            {
                assert(index_matrix@[i as int].len() >= side);
                let code: u8 = index_matrix.get(i, j).unwrap();
                let _ = points.set(i, j, cell_points(code));
                j += 1;
            }
            i += 1;
        }
        assert(points@ =~~= contour(index_matrix@, partition_size as int));
        assert forall|i: int, j: int|
            0 <= i < side && 0 <= j < side && (index_matrix@[i][j] == 5 || index_matrix@[i][j]
                == 10) implies cuts_two_corners(#[trigger] points@[i][j]) by {
            assert(points@[i][j] == cell_points_spec(index_matrix@[i][j]));
        }
        points
    }
}

} // verus!
