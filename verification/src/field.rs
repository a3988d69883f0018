//! Dense two-dimensional fields.
//!
//! The entries live in `ndarray` arrays. Verus sees such an array only
//! through the sequence of its rows and through the few calls declared
//! below; every field type of this module pairs an array with its shape and
//! offers total, bounds-checked access on top of them.

use crate::cell::ContourPoint;
use ndarray::Array2;
use vstd::prelude::*;

verus! {

/// Whether `rows` is a table of `height` rows of `width` entries each.
pub open spec fn is_grid<T>(rows: Seq<Seq<T>>, height: int, width: int) -> bool {
    &&& rows.len() == height
    &&& forall|i: int| 0 <= i < height ==> (#[trigger] rows[i]).len() == width
}

/// Whether `rows` has at least `size` rows, each of the first `size` at
/// least `size` entries wide.
pub open spec fn covers<T>(rows: Seq<Seq<T>>, size: int) -> bool {
    &&& rows.len() >= size
    &&& forall|i: int| 0 <= i < size ==> (#[trigger] rows[i]).len() >= size
}

/// Whether `rows` has at most `size` rows, each at most `size` entries
/// wide.
pub open spec fn within<T>(rows: Seq<Seq<T>>, size: int) -> bool {
    &&& rows.len() <= size
    &&& forall|i: int| 0 <= i < rows.len() ==> (#[trigger] rows[i]).len() <= size
}

/// An upper bound of the size in bytes of an entry of any field. The
/// largest entry is a point sequence, a vector, which takes three machine
/// words of at most eight bytes each.
pub const CELL_BYTES: usize = 24;

/// The length of an axis as it counts towards the size of a shape: an
/// empty axis counts as one of length 1.
pub open spec fn axis_length(length: int) -> int {
    if length == 0 {
        1
    } else {
        length
    }
}

/// Whether fields of `rows` by `cols` entries can be allocated: the product
/// of the axis lengths that are not 0 does not exceed `isize::MAX`, nor
/// does the size in bytes of `rows * cols` entries of `CELL_BYTES` each.
pub open spec fn allocatable(rows: int, cols: int) -> bool {
    &&& axis_length(rows) * axis_length(cols) <= isize::MAX
    &&& rows * cols * CELL_BYTES <= isize::MAX
}

/// A shape with fewer rows and columns than an allocatable one is
/// allocatable too.
pub proof fn lemma_allocatable_smaller(rows: int, cols: int, fewer_rows: int, fewer_cols: int)
    requires
        allocatable(rows, cols),
        0 <= fewer_rows <= rows,
        0 <= fewer_cols <= cols,
    ensures
        allocatable(fewer_rows, fewer_cols),
{
    assert(fewer_rows * fewer_cols * 24 <= rows * cols * 24) by (nonlinear_arith)
        requires
            0 <= fewer_rows <= rows,
            0 <= fewer_cols <= cols,
    ;
    assert(axis_length(fewer_rows) * axis_length(fewer_cols) <= axis_length(rows) * axis_length(
        cols,
    )) by (nonlinear_arith)
        requires
            1 <= axis_length(fewer_rows) <= axis_length(rows),
            1 <= axis_length(fewer_cols) <= axis_length(cols),
    ;
}

/// Tells whether fields of `rows` by `cols` entries can be allocated.
pub fn can_allocate(rows: usize, cols: usize) -> (fits: bool)
    ensures
        fits == allocatable(rows as int, cols as int),
{
    let tall: usize = if rows == 0 {
        1
    } else {
        rows
    };
    let wide: usize = if cols == 0 {
        1
    } else {
        cols
    };
    let shape: usize = match tall.checked_mul(wide) {
        None => {
            return false;
        },
        Some(shape) => shape,
    };
    if shape > isize::MAX as usize {
        return false;
    }
    if rows == 0 || cols == 0 {
        assert(rows * cols * 24 == 0) by (nonlinear_arith)
            requires
                rows == 0 || cols == 0,
        ;
        return true;
    }
    match shape.checked_mul(CELL_BYTES) {
        None => false,
        Some(total) => total <= isize::MAX as usize,
    }
}

/// An `ndarray` array of integer samples.
#[verifier::external_body]
pub struct ValueCells {
    inner: Array2<i64>,
}

/// An `ndarray` array of bytes.
#[verifier::external_body]
pub struct ByteCells {
    inner: Array2<u8>,
}

/// An `ndarray` array of point sequences.
#[verifier::external_body]
pub struct SegmentCells {
    inner: Array2<Vec<ContourPoint>>,
}

/// The rows of an array of samples: entry `[i, j]` of the array is entry
/// `j` of row `i`.
pub uninterp spec fn value_rows(cells: ValueCells) -> Seq<Seq<i64>>;

/// The rows of an array of bytes: entry `[i, j]` of the array is entry `j`
/// of row `i`.
pub uninterp spec fn byte_rows(cells: ByteCells) -> Seq<Seq<u8>>;

/// The rows of an array of point sequences: entry `[i, j]` of the array is
/// entry `j` of row `i`.
pub uninterp spec fn segment_rows(cells: SegmentCells) -> Seq<Seq<Seq<ContourPoint>>>;

/// `Array2::from_shape_fn`: a new array of `rows` by `cols` entries in which
/// the entry at `[i, j]` is what one call `sample((i, j))` returned. The call
/// panics where the product of the axis lengths that are not 0, or the size
/// of the entries in bytes, exceeds `isize::MAX`; the precondition excludes
/// both.
#[verifier::external_body]
fn value_cells_from_fn<F: Fn((usize, usize)) -> i64>(rows: usize, cols: usize, sample: F) -> (cells:
    ValueCells)
    requires
        axis_length(rows as int) * axis_length(cols as int) <= isize::MAX,
        rows * cols * 8 <= isize::MAX,
        forall|i: usize, j: usize| i < rows && j < cols ==> sample.requires(((i, j),)),
    ensures
        is_grid(value_rows(cells), rows as int, cols as int),
        forall|i: usize, j: usize|
            i < rows && j < cols ==> sample.ensures(
                ((i, j),),
                #[trigger] value_rows(cells)[i as int][j as int],
            ),
{
    ValueCells { inner: Array2::from_shape_fn((rows, cols), sample) }
}

/// The index operator of `ndarray` on an array of samples: the entry at
/// `[i, j]`. It panics out of bounds, which the precondition excludes.
#[verifier::external_body]
fn value_cells_get(cells: &ValueCells, i: usize, j: usize) -> (value: i64)
    requires
        i < value_rows(*cells).len(),
        j < value_rows(*cells)[i as int].len(),
    ensures
        value == value_rows(*cells)[i as int][j as int],
{
    cells.inner[[i, j]]
}

/// `Array2::zeros`: a new array of `rows` by `cols` entries, each 0. The
/// call panics where the product of the axis lengths that are not 0 exceeds
/// `isize::MAX`, which the precondition excludes.
#[verifier::external_body]
fn byte_cells_zeros(rows: usize, cols: usize) -> (cells: ByteCells)
    requires
        axis_length(rows as int) * axis_length(cols as int) <= isize::MAX,
    ensures
        is_grid(byte_rows(cells), rows as int, cols as int),
        forall|i: int, j: int|
            0 <= i < rows && 0 <= j < cols ==> #[trigger] byte_rows(cells)[i][j] == 0,
{
    ByteCells { inner: Array2::<u8>::zeros((rows, cols)) }
}

/// The index operator of `ndarray` on an array of bytes: the entry at
/// `[i, j]`. It panics out of bounds, which the precondition excludes.
#[verifier::external_body]
fn byte_cells_get(cells: &ByteCells, i: usize, j: usize) -> (value: u8)
    requires
        i < byte_rows(*cells).len(),
        j < byte_rows(*cells)[i as int].len(),
    ensures
        value == byte_rows(*cells)[i as int][j as int],
{
    cells.inner[[i, j]]
}

/// Assignment through the index operator of `ndarray` on an array of bytes:
/// the entry at `[i, j]` becomes `value` and no other entry changes. It
/// panics out of bounds and nowhere else; the precondition excludes that.
#[verifier::external_body]
fn byte_cells_set(cells: &mut ByteCells, i: usize, j: usize, value: u8)
    requires
        i < byte_rows(*old(cells)).len(),
        j < byte_rows(*old(cells))[i as int].len(),
    ensures
        byte_rows(*final(cells)) == byte_rows(*old(cells)).update(
            i as int,
            byte_rows(*old(cells))[i as int].update(j as int, value),
        ),
    no_unwind
{
    cells.inner[[i, j]] = value;
}

/// `Array2::default`: a new array of `rows` by `cols` entries, each the
/// default of its type, an empty sequence. The call panics where the product
/// of the axis lengths that are not 0, or the size of the entries in bytes,
/// exceeds `isize::MAX`. An entry is a vector, which takes three machine
/// words and so at most 24 bytes; the precondition excludes both.
#[verifier::external_body]
fn segment_cells_default(rows: usize, cols: usize) -> (cells: SegmentCells)
    requires
        axis_length(rows as int) * axis_length(cols as int) <= isize::MAX,
        rows * cols * 24 <= isize::MAX,
    ensures
        is_grid(segment_rows(cells), rows as int, cols as int),
        forall|i: int, j: int|
            0 <= i < rows && 0 <= j < cols ==> #[trigger] segment_rows(cells)[i][j]
                == Seq::<ContourPoint>::empty(),
{
    SegmentCells { inner: Array2::default((rows, cols)) }
}

/// The index operator of `ndarray` on an array of point sequences: the
/// entry at `(i, j)`. It panics out of bounds, which the precondition
/// excludes.
#[verifier::external_body]
fn segment_cells_get(cells: &SegmentCells, i: usize, j: usize) -> (points: &Vec<ContourPoint>)
    requires
        i < segment_rows(*cells).len(),
        j < segment_rows(*cells)[i as int].len(),
    ensures
        points@ == segment_rows(*cells)[i as int][j as int],
{
    &cells.inner[(i, j)]
}

/// Assignment through the index operator of `ndarray` on an array of point
/// sequences: the entry at `(i, j)` becomes `points` and no other entry
/// changes. It panics out of bounds and nowhere else; the precondition
/// excludes that.
#[verifier::external_body]
fn segment_cells_set(cells: &mut SegmentCells, i: usize, j: usize, points: Vec<ContourPoint>)
    requires
        i < segment_rows(*old(cells)).len(),
        j < segment_rows(*old(cells))[i as int].len(),
    ensures
        segment_rows(*final(cells)) == segment_rows(*old(cells)).update(
            i as int,
            segment_rows(*old(cells))[i as int].update(j as int, points@),
        ),
    no_unwind
{
    cells.inner[(i, j)] = points;
}

/// A field of integer samples, one for every node of a grid.
pub struct ValueField {
    rows: usize,
    cols: usize,
    cells: ValueCells,
}

/// A field of bytes: the inside flags of the nodes of a grid, or the
/// topology codes of its cells.
pub struct ByteField {
    rows: usize,
    cols: usize,
    cells: ByteCells,
}

/// A field of point sequences, one for every cell of a grid.
pub struct SegmentField {
    rows: usize,
    cols: usize,
    cells: SegmentCells,
}

impl View for ValueField {
    type V = Seq<Seq<i64>>;

    closed spec fn view(&self) -> Seq<Seq<i64>> {
        value_rows(self.cells)
    }
}

impl View for ByteField {
    type V = Seq<Seq<u8>>;

    closed spec fn view(&self) -> Seq<Seq<u8>> {
        byte_rows(self.cells)
    }
}

impl View for SegmentField {
    type V = Seq<Seq<Seq<ContourPoint>>>;

    closed spec fn view(&self) -> Seq<Seq<Seq<ContourPoint>>> {
        segment_rows(self.cells)
    }
}

impl ValueField {
    #[verifier::type_invariant]
    closed spec fn inv(&self) -> bool {
        &&& is_grid(value_rows(self.cells), self.rows as int, self.cols as int)
        &&& allocatable(self.rows as int, self.cols as int)
    }

    /// The number of entries in every row, also of a field without rows.
    pub closed spec fn width(&self) -> nat {
        self.cols as nat
    }

    /// Samples a field of `rows` by `cols` entries: entry `[i, j]` is what
    /// `sample((i, j))` returns. `None` where such a field cannot be
    /// allocated; `sample` is then not called.
    pub fn from_fn<F: Fn((usize, usize)) -> i64>(rows: usize, cols: usize, sample: F) -> (field:
        Option<ValueField>)
        requires
            forall|i: usize, j: usize| i < rows && j < cols ==> sample.requires(((i, j),)),
        ensures
            field is Some <==> allocatable(rows as int, cols as int),
            field matches Some(f) ==> {
                &&& is_grid(f@, rows as int, cols as int)
                &&& f.width() == cols
                &&& forall|i: usize, j: usize|
                    i < rows && j < cols ==> sample.ensures(
                        ((i, j),),
                        #[trigger] f@[i as int][j as int],
                    )
            },
    {
        if !can_allocate(rows, cols) {
            return None;
        }
        assert(rows * cols * 8 <= rows * cols * 24) by (nonlinear_arith);
        let cells = value_cells_from_fn(rows, cols, sample);
        Some(ValueField { rows, cols, cells })
    }

    /// The number of rows.
    pub fn rows(&self) -> (rows: usize)
        ensures
            rows == self@.len(),
    {
        proof {
            use_type_invariant(self);
        }
        self.rows
    }

    /// The number of entries in every row.
    pub fn cols(&self) -> (cols: usize)
        ensures
            cols == self.width(),
            is_grid(self@, self@.len() as int, cols as int),
            allocatable(self@.len() as int, cols as int),
    {
        proof {
            use_type_invariant(self);
        }
        self.cols
    }

    /// The entry at `[i, j]`; `None` out of bounds.
    pub fn get(&self, i: usize, j: usize) -> (value: Option<i64>)
        ensures
            value == if i < self@.len() && j < self@[i as int].len() {
                Some(self@[i as int][j as int])
            } else {
                None
            },
    {
        proof {
            use_type_invariant(self);
        }
        if i < self.rows && j < self.cols {
            Some(value_cells_get(&self.cells, i, j))
        } else {
            None
        }
    }
}

impl ByteField {
    #[verifier::type_invariant]
    closed spec fn inv(&self) -> bool {
        &&& is_grid(byte_rows(self.cells), self.rows as int, self.cols as int)
        &&& allocatable(self.rows as int, self.cols as int)
    }

    /// The number of entries in every row, also of a field without rows.
    pub closed spec fn width(&self) -> nat {
        self.cols as nat
    }

    /// A field of `rows` by `cols` entries, each 0.
    pub fn zeros(rows: usize, cols: usize) -> (field: ByteField)
        requires
            allocatable(rows as int, cols as int),
        ensures
            is_grid(field@, rows as int, cols as int),
            field.width() == cols,
            forall|i: int, j: int| 0 <= i < rows && 0 <= j < cols ==> #[trigger] field@[i][j] == 0,
    {
        let cells = byte_cells_zeros(rows, cols);
        ByteField { rows, cols, cells }
    }

    /// The number of rows.
    pub fn rows(&self) -> (rows: usize)
        ensures
            rows == self@.len(),
    {
        proof {
            use_type_invariant(self);
        }
        self.rows
    }

    /// The number of entries in every row.
    pub fn cols(&self) -> (cols: usize)
        ensures
            cols == self.width(),
            is_grid(self@, self@.len() as int, cols as int),
            allocatable(self@.len() as int, cols as int),
    {
        proof {
            use_type_invariant(self);
        }
        self.cols
    }

    /// The entry at `[i, j]`; `None` out of bounds.
    pub fn get(&self, i: usize, j: usize) -> (value: Option<u8>)
        ensures
            value == if i < self@.len() && j < self@[i as int].len() {
                Some(self@[i as int][j as int])
            } else {
                None
            },
    {
        proof {
            use_type_invariant(self);
        }
        if i < self.rows && j < self.cols {
            Some(byte_cells_get(&self.cells, i, j))
        } else {
            None
        }
    }

    /// Writes `value` at `[i, j]`. Out of bounds nothing is written and the
    /// result is `false`.
    pub fn set(&mut self, i: usize, j: usize, value: u8) -> (written: bool)
        ensures
            written == (i < old(self)@.len() && j < old(self)@[i as int].len()),
            written ==> final(self)@ == old(self)@.update(
                i as int,
                old(self)@[i as int].update(j as int, value),
            ),
            !written ==> final(self)@ == old(self)@,
            final(self).width() == old(self).width(),
    {
        proof {
            use_type_invariant(&*self);
        }
        if i < self.rows && j < self.cols {
            byte_cells_set(&mut self.cells, i, j, value);
            true
        } else {
            false
        }
    }
}

impl SegmentField {
    #[verifier::type_invariant]
    closed spec fn inv(&self) -> bool {
        &&& is_grid(segment_rows(self.cells), self.rows as int, self.cols as int)
        &&& allocatable(self.rows as int, self.cols as int)
    }

    /// The number of entries in every row, also of a field without rows.
    pub closed spec fn width(&self) -> nat {
        self.cols as nat
    }

    /// A field of `rows` by `cols` entries, each an empty sequence.
    pub fn empty(rows: usize, cols: usize) -> (field: SegmentField)
        requires
            allocatable(rows as int, cols as int),
        ensures
            is_grid(field@, rows as int, cols as int),
            field.width() == cols,
            forall|i: int, j: int|
                0 <= i < rows && 0 <= j < cols ==> #[trigger] field@[i][j]
                    == Seq::<ContourPoint>::empty(),
    {
        let cells = segment_cells_default(rows, cols);
        SegmentField { rows, cols, cells }
    }

    /// The number of rows.
    pub fn rows(&self) -> (rows: usize)
        ensures
            rows == self@.len(),
    {
        proof {
            use_type_invariant(self);
        }
        self.rows
    }

    /// The number of entries in every row.
    pub fn cols(&self) -> (cols: usize)
        ensures
            cols == self.width(),
            is_grid(self@, self@.len() as int, cols as int),
            allocatable(self@.len() as int, cols as int),
    {
        proof {
            use_type_invariant(self);
        }
        self.cols
    }

    /// The entry at `[i, j]`; `None` out of bounds.
    pub fn get(&self, i: usize, j: usize) -> (points: Option<&Vec<ContourPoint>>)
        ensures
            points is Some <==> i < self@.len() && j < self@[i as int].len(),
            points matches Some(p) ==> p@ == self@[i as int][j as int],
    {
        proof {
            use_type_invariant(self);
        }
        if i < self.rows && j < self.cols {
            Some(segment_cells_get(&self.cells, i, j))
        } else {
            None
        }
    }

    /// Writes `points` at `[i, j]`. Out of bounds nothing is written and the
    /// result is `false`.
    pub fn set(&mut self, i: usize, j: usize, points: Vec<ContourPoint>) -> (written: bool)
        ensures
            written == (i < old(self)@.len() && j < old(self)@[i as int].len()),
            written ==> final(self)@ == old(self)@.update(
                i as int,
                old(self)@[i as int].update(j as int, points@),
            ),
            !written ==> final(self)@ == old(self)@,
            final(self).width() == old(self).width(),
    {
        proof {
            use_type_invariant(&*self);
        }
        if i < self.rows && j < self.cols {
            segment_cells_set(&mut self.cells, i, j, points);
            true
        } else {
            false
        }
    }
}

} // verus!
