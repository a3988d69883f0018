//! The export record: the cells of a contour in row-major order, and the
//! text that carries them, the grid's half extent and a title.
//!
//! The text has the fixed shape
//!
//! ```text
//! {"points":[[(x, y), (x, y)], [(x, y)]],
//! "length":40,
//! "title":"a title"}
//! ```
//!
//! with one bracketed list per cell and one pair per point. A cell without
//! a crossing carries the sentinel pair `(0.0, 0.0)`. The coordinates of
//! the crossings and the half extent reach this module as text; how a
//! number is written is the caller's concern.

use crate::cell::ContourPoint;
use crate::field::{is_grid, SegmentField};
use crate::marching::MarchingSquares;
use vstd::prelude::*;
use vstd::string::*;

verus! {

/// One cell of a contour: where it lies in the grid and its point sequence.
pub struct Cell {
    /// The row of the cell.
    pub row: usize,
    /// The column of the cell.
    pub col: usize,
    /// The point sequence of the cell.
    pub points: Vec<ContourPoint>,
}

/// The two coordinates of a point, as text.
pub struct PointText {
    /// The text of the `x` coordinate.
    pub x: String,
    /// The text of the `y` coordinate.
    pub y: String,
}

impl DeepView for PointText {
    type V = (Seq<char>, Seq<char>);

    open spec fn deep_view(&self) -> (Seq<char>, Seq<char>) {
        (self.x@, self.y@)
    }
}

/// The number of entries in a row of a table; 0 for a table without rows.
pub open spec fn width<T>(rows: Seq<Seq<T>>) -> int {
    if rows.len() == 0 {
        0
    } else {
        rows[0].len() as int
    }
}

/// The place of cell `(row, col)` in the row-major order of a table that
/// is `width` cells wide.
spec fn place(row: int, width: int, col: int) -> int {
    row * width + col
}

/// The entries of a table in row-major order: row after row, and within a
/// row from the first column to the last.
pub open spec fn flattened<T>(rows: Seq<Seq<T>>) -> Seq<T> {
    Seq::new(
        (rows.len() * width(rows)) as nat,
        |k: int| rows[k / width(rows)][k % width(rows)],
    )
}

/// The pair that stands for "no crossing in this cell".
pub open spec fn sentinel_text() -> (Seq<char>, Seq<char>) {
    ("0.0"@, "0.0"@)
}

/// The pair that a point of the contour is written as: the sentinel pair
/// for the sentinel, else the coordinates that the caller gave.
pub open spec fn emitted_point(point: ContourPoint, given: (Seq<char>, Seq<char>)) -> (
    Seq<char>,
    Seq<char>,
) {
    match point {
        ContourPoint::Sentinel => sentinel_text(),
        ContourPoint::Crossing(_) => given,
    }
}

/// The pairs that the cells of a contour are written as.
pub open spec fn emitted(
    cells: Seq<Seq<ContourPoint>>,
    given: Seq<Seq<(Seq<char>, Seq<char>)>>,
) -> Seq<Seq<(Seq<char>, Seq<char>)>> {
    Seq::new(
        cells.len(),
        |k: int| Seq::new(cells[k].len(), |m: int| emitted_point(cells[k][m], given[k][m])),
    )
}

/// Whether `given` holds one list for every cell and in it one pair for
/// every point of the cell.
pub open spec fn fits(
    cells: Seq<Seq<ContourPoint>>,
    given: Seq<Seq<(Seq<char>, Seq<char>)>>,
) -> bool {
    &&& given.len() == cells.len()
    &&& forall|k: int| 0 <= k < cells.len() ==> (#[trigger] given[k]).len() == cells[k].len()
}

/// The items, with a comma and a space between neighbours.
pub open spec fn joined(items: Seq<Seq<char>>) -> Seq<char>
    decreases items.len(),
{
    if items.len() == 0 {
        Seq::empty()
    } else if items.len() == 1 {
        items[0]
    } else {
        joined(items.drop_last()) + ", "@ + items.last()
    }
}

/// The items as a list in square brackets.
pub open spec fn bracketed(items: Seq<Seq<char>>) -> Seq<char> {
    "["@ + joined(items) + "]"@
}

/// A point as a pair in round brackets.
pub open spec fn point_text(point: (Seq<char>, Seq<char>)) -> Seq<char> {
    "("@ + point.0 + ", "@ + point.1 + ")"@
}

/// The points of a cell as a list of pairs.
pub open spec fn cell_text(cell: Seq<(Seq<char>, Seq<char>)>) -> Seq<char> {
    bracketed(Seq::new(cell.len(), |k: int| point_text(cell[k])))
}

/// The cells as a list of lists of pairs.
pub open spec fn points_text(cells: Seq<Seq<(Seq<char>, Seq<char>)>>) -> Seq<char> {
    bracketed(Seq::new(cells.len(), |k: int| cell_text(cells[k])))
}

/// The whole record.
pub open spec fn record_text(
    cells: Seq<Seq<(Seq<char>, Seq<char>)>>,
    length: Seq<char>,
    title: Seq<char>,
) -> Seq<char> {
    "{\"points\":"@ + points_text(cells) + ",\n\"length\":"@ + length + ",\n\"title\":\""@ + title
        + "\"}"@
}

/// The cells of a field in row-major order, each with its row and column.
pub fn row_major(field: &SegmentField) -> (cells: Vec<Cell>)
    ensures
        cells.len() == flattened(field@).len(),
        forall|k: int|
            0 <= k < cells.len() ==> {
                let cell = #[trigger] cells[k];
                &&& cell.row == k / width(field@)
                &&& cell.col == k % width(field@)
                &&& cell.row < field@.len()
                &&& cell.col < width(field@)
                &&& cell.points@ == flattened(field@)[k]
            },
{
    let rows: usize = field.rows();
    let cols: usize = field.cols();
    let mut cells: Vec<Cell> = Vec::new();
    if rows == 0 {
        return cells;
    }
    assert(width(field@) == cols) by {
        assert(field@[0].len() == cols);
    }
    assert(flattened(field@).len() == rows * cols) by (nonlinear_arith)
        requires
            flattened(field@).len() == (rows * cols) as nat,
            0 <= rows,
            0 <= cols,
    ;
    let ghost w: int = cols as int;
    let mut i: usize = 0;
    while i < rows
        invariant
            i <= rows,
            rows == field@.len(),
            w == cols,
            is_grid(field@, rows as int, cols as int),
            cells.len() == i * w,
            forall|r: int, c: int|
                0 <= r < i && 0 <= c < w ==> {
                    let cell = #[trigger] cells[place(r, w, c)];
                    &&& cell.row == r
                    &&& cell.col == c
                    &&& cell.points@ == field@[r][c]
                },
        decreases rows - i,
    {
        let mut j: usize = 0;
        while j < cols
            invariant
                i < rows,
                j <= cols,
                rows == field@.len(),
                w == cols,
                is_grid(field@, rows as int, cols as int),
                cells.len() == i * w + j,
                forall|r: int, c: int|
                    0 <= r < i && 0 <= c < w ==> {
                        let cell = #[trigger] cells[place(r, w, c)];
                        &&& cell.row == r
                        &&& cell.col == c
                        &&& cell.points@ == field@[r][c]
                    },
                forall|c: int|
                    0 <= c < j ==> {
                        let cell = #[trigger] cells[place(i as int, w, c)];
                        &&& cell.row == i
                        &&& cell.col == c
                        &&& cell.points@ == field@[i as int][c]
                    },
            decreases cols - j,
        {
            let points = copy_points(field.get(i, j).unwrap());
            let ghost before = cells@;
            cells.push(Cell { row: i, col: j, points });
            proof {
                assert forall|r: int, c: int| 0 <= r < i && 0 <= c < w implies {
                    let cell = #[trigger] cells[place(r, w, c)];
                    &&& cell.row == r
                    &&& cell.col == c
                    &&& cell.points@ == field@[r][c]
                } by {
                    assert(r * w + w <= i * w) by (nonlinear_arith)
                        requires
                            0 <= r < i,
                            0 <= w,
                    ;
                    assert(cells[place(r, w, c)] == before[place(r, w, c)]);
                }
                assert forall|c: int| 0 <= c < j + 1 implies {
                    let cell = #[trigger] cells[place(i as int, w, c)];
                    &&& cell.row == i
                    &&& cell.col == c
                    &&& cell.points@ == field@[i as int][c]
                } by {
                    if c < j {
                        assert(cells[place(i as int, w, c)] == before[place(i as int, w, c)]);
                    }
                }
            }
            j += 1;
        }
        proof {
            assert((i + 1) * w == i * w + w) by (nonlinear_arith);
            assert forall|r: int, c: int| 0 <= r < i + 1 && 0 <= c < w implies {
                let cell = #[trigger] cells[place(r, w, c)];
                &&& cell.row == r
                &&& cell.col == c
                &&& cell.points@ == field@[r][c]
            } by {
                if r == i {
                    assert(cells[place(i as int, w, c)].row == i);
                }
            }
        }
        i += 1;
    }
    proof {
        assert forall|k: int| 0 <= k < cells.len() implies {
            let cell = #[trigger] cells[k];
            &&& cell.row == k / w
            &&& cell.col == k % w
            &&& cell.row < rows
            &&& cell.col < w
            &&& cell.points@ == flattened(field@)[k]
        } by {
            lemma_place(rows as int, w, k);
            assert(cells[k] == cells[place(k / w, w, k % w)]);
        }
    }
    cells
}

/// Every place of a table is the place of one cell: that in row
/// `k / width` and column `k % width`.
proof fn lemma_place(height: int, width: int, k: int)
    requires
        0 <= k < height * width,
        0 <= width,
    ensures
        0 <= k / width < height,
        0 <= k % width < width,
        place(k / width, width, k % width) == k,
{
    assert(width > 0) by (nonlinear_arith)
        requires
            0 <= k < height * width,
            0 <= width,
    ;
    vstd::arithmetic::div_mod::lemma_fundamental_div_mod(k, width);
    vstd::arithmetic::div_mod::lemma_mod_pos_bound(k, width);
    let q = k / width;
    assert(width * q == q * width) by (nonlinear_arith);
    assert(0 <= q < height) by (nonlinear_arith)
        requires
            0 <= k < height * width,
            k == q * width + k % width,
            0 <= k % width < width,
    ;
}

/// A copy of a point sequence.
fn copy_points(points: &Vec<ContourPoint>) -> (copy: Vec<ContourPoint>)
    ensures
        copy@ == points@,
{
    let mut copy: Vec<ContourPoint> = Vec::new();
    let mut k: usize = 0;
    while k < points.len()
        invariant
            k <= points.len(),
            copy.len() == k,
            forall|m: int| 0 <= m < k ==> copy[m] == points[m],
        decreases points.len() - k,
    {
        copy.push(points[k]);
        k += 1;
    }
    assert(copy@ =~= points@);
    copy
}

/// The items as a list in square brackets, with a comma and a space
/// between neighbours.
fn bracket(items: &Vec<String>) -> (text: String)
    ensures
        text@ == bracketed(items.deep_view()),
{
    let ghost all = items.deep_view();
    let mut text = String::new();
    text.append("[");
    let mut k: usize = 0;
    while k < items.len()
        invariant
            k <= items.len(),
            all == items.deep_view(),
            text@ == "["@ + joined(all.take(k as int)),
        decreases items.len() - k,
    {
        if k > 0 {
            text.append(", ");
        }
        text.append(items[k].as_str());
        proof {
            let next = all.take(k + 1);
            assert(next.drop_last() =~= all.take(k as int));
            assert(next.last() == items[k as int]@);
            if k == 0 {
                assert(joined(all.take(0)) =~= Seq::<char>::empty());
                assert(text@ =~= "["@ + joined(next));
            } else {
                assert(text@ =~= "["@ + joined(next));
            }
        }
        k += 1;
    }
    assert(all.take(items.len() as int) =~= all);
    text.append("]");
    text
}

/// The text of a record: the points of the cells, then the half extent and
/// the title. `points` holds the coordinates of every point as text and
/// `length` the half extent; the title stands between double quotes as it
/// is.
pub fn write_record(points: &Vec<Vec<PointText>>, length: &str, title: &str) -> (record: String)
    ensures
        record@ == record_text(points.deep_view(), length@, title@),
{
    let ghost cells = points.deep_view();
    let mut cell_texts: Vec<String> = Vec::new();
    let mut i: usize = 0;
    while i < points.len()
        invariant
            i <= points.len(),
            cells == points.deep_view(),
            cell_texts.len() == i,
            forall|m: int| 0 <= m < i ==> (#[trigger] cell_texts[m])@ == cell_text(cells[m]),
        decreases points.len() - i,
    {
        let cell = &points[i];
        let ghost pairs = cell.deep_view();
        let mut pair_texts: Vec<String> = Vec::new();
        let mut k: usize = 0;
        while k < cell.len()
            invariant
                k <= cell.len(),
                pairs == cell.deep_view(),
                pair_texts.len() == k,
                forall|m: int| 0 <= m < k ==> (#[trigger] pair_texts[m])@ == point_text(pairs[m]),
            decreases cell.len() - k,
        {
            let mut pair = String::new();
            pair.append("(");
            pair.append(cell[k].x.as_str());
            pair.append(", ");
            pair.append(cell[k].y.as_str());
            pair.append(")");
            assert(pair@ =~= point_text(pairs[k as int]));
            pair_texts.push(pair);
            k += 1;
        }
        assert(pair_texts.deep_view() =~= Seq::new(pairs.len(), |m: int| point_text(pairs[m])));
        let text = bracket(&pair_texts);
        assert(pairs == cells[i as int]);
        cell_texts.push(text);
        i += 1;
    }
    assert(cell_texts.deep_view() =~= Seq::new(cells.len(), |m: int| cell_text(cells[m])));
    let list = bracket(&cell_texts);
    let mut record = String::new();
    record.append("{\"points\":");
    record.append(list.as_str());
    record.append(",\n\"length\":");
    record.append(length);
    record.append(",\n\"title\":\"");
    record.append(title);
    record.append("\"}");
    assert(record@ =~= record_text(cells, length@, title@));
    record
}

impl MarchingSquares {
    /// The text of the export record of this contour: the point sequences
    /// of its cells in row-major order, then the half extent and the title.
    ///
    /// `coordinates` holds, for every cell in row-major order, one pair for
    /// every point of the cell: the coordinates of the point as text. What
    /// it holds in the place of a sentinel is not read: the sentinel is
    /// written as `(0.0, 0.0)`. `length` is the half extent as text. The
    /// result is `None` where `coordinates` does not fit the contour.
    pub fn jsondump(&self, coordinates: &Vec<Vec<PointText>>, length: &str, title: &str) -> (record:
        Option<String>)
        ensures
            record is Some <==> fits(flattened(self.points()), coordinates.deep_view()),
            record matches Some(text) ==> text@ == record_text(
                emitted(flattened(self.points()), coordinates.deep_view()),
                length@,
                title@,
            ),
    {
        let cells = row_major(self.interpol_matrix());
        let ghost given = coordinates.deep_view();
        let ghost points = flattened(self.points());
        if coordinates.len() != cells.len() {
            return None;
        }
        let mut written: Vec<Vec<PointText>> = Vec::new();
        let mut k: usize = 0;
        while k < cells.len()
            invariant
                k <= cells.len(),
                given == coordinates.deep_view(),
                points == flattened(self.points()),
                coordinates.len() == cells.len(),
                cells.len() == points.len(),
                forall|c: int| 0 <= c < cells.len() ==> (#[trigger] cells[c]).points@ == points[c],
                written.len() == k,
                forall|c: int| 0 <= c < k ==> (#[trigger] given[c]).len() == points[c].len(),
                forall|c: int|
                    0 <= c < k ==> (#[trigger] written[c]).deep_view() == emitted(points, given)[c],
            decreases cells.len() - k,
        {
            let cell = &cells[k].points;
            let texts = &coordinates[k];
            assert(given[k as int] == texts.deep_view());
            if texts.len() != cell.len() {
                assert(given[k as int].len() != points[k as int].len());
                return None;
            }
            let mut pairs: Vec<PointText> = Vec::new();
            let mut m: usize = 0;
            while m < cell.len()
                invariant
                    m <= cell.len(),
                    texts.len() == cell.len(),
                    pairs.len() == m,
                    forall|p: int|
                        0 <= p < m ==> (#[trigger] pairs[p]).deep_view() == emitted_point(
                            cell[p],
                            texts[p].deep_view(),
                        ),
                decreases cell.len() - m,
            {
                let pair = match cell[m] {
                    ContourPoint::Sentinel => PointText {
                        x: "0.0".to_owned(),
                        y: "0.0".to_owned(),
                    },
                    ContourPoint::Crossing(_) => PointText {
                        x: texts[m].x.clone(),
                        y: texts[m].y.clone(),
                    },
                };
                pairs.push(pair);
                m += 1;
            }
            assert(pairs.deep_view() =~= emitted(points, given)[k as int]);
            written.push(pairs);
            k += 1;
        }
        assert(written.deep_view() =~= emitted(points, given));
        Some(write_record(&written, length, title))
    }
}

} // verus!
