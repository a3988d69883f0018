//! What holds of the export record: it can be read back.
//!
//! Two records with the same text carry the same cells, the same half
//! extent and the same title, as long as the numbers in them are written
//! with digits, letters, points and signs alone. The title may be any text.

use crate::cell::ContourPoint;
use crate::export::{
    bracketed, cell_text, emitted, fits, joined, point_text, points_text, record_text,
};
use vstd::prelude::*;

verus! {

/// Whether `mark` occurs nowhere in `text`.
pub open spec fn lacks(text: Seq<char>, mark: char) -> bool {
    forall|k: int| 0 <= k < text.len() ==> text[k] != mark
}

/// Whether `text` begins with `mark` and holds it nowhere else.
pub open spec fn headed(text: Seq<char>, mark: char) -> bool {
    &&& text.len() > 0
    &&& text[0] == mark
    &&& forall|k: int| 1 <= k < text.len() ==> text[k] != mark
}

/// Whether every item lacks `mark`.
pub open spec fn all_lack(items: Seq<Seq<char>>, mark: char) -> bool {
    forall|i: int| 0 <= i < items.len() ==> lacks(#[trigger] items[i], mark)
}

/// Whether every item is headed by `mark`.
pub open spec fn all_headed(items: Seq<Seq<char>>, mark: char) -> bool {
    forall|i: int| 0 <= i < items.len() ==> headed(#[trigger] items[i], mark)
}

/// Joining items puts nothing between them but commas and spaces.
proof fn lemma_joined_lacks(items: Seq<Seq<char>>, mark: char)
    requires
        all_lack(items, mark),
        mark != ',',
        mark != ' ',
    ensures
        lacks(joined(items), mark),
    decreases items.len(),
{
    reveal_strlit(", ");
    if items.len() >= 2 {
        let front = items.drop_last();
        assert forall|i: int| 0 <= i < front.len() implies lacks(#[trigger] front[i], mark) by {
            assert(front[i] == items[i]);
        }
        lemma_joined_lacks(front, mark);
        assert(lacks(items.last(), mark));
    } else if items.len() == 1 {
        assert(lacks(items[0], mark));
    }
}

/// Where the last of the joined items begins, and that its mark occurs
/// nowhere after that place.
proof fn lemma_joined_last(items: Seq<Seq<char>>, mark: char)
    requires
        items.len() > 0,
        all_headed(items, mark),
        mark != ',',
        mark != ' ',
    ensures
        ({
            let text = joined(items);
            let last = items.last();
            let start = text.len() - last.len();
            &&& start >= 0
            &&& text.subrange(start, text.len() as int) == last
            &&& text[start] == mark
            &&& forall|k: int| start < k < text.len() ==> text[k] != mark
            &&& items.len() == 1 ==> start == 0
            &&& items.len() >= 2 ==> start >= 2 && text.subrange(0, start - 2) == joined(
                items.drop_last(),
            )
        }),
{
    reveal_strlit(", ");
    let text = joined(items);
    let last = items.last();
    let start = text.len() - last.len();
    assert(headed(last, mark));
    if items.len() == 1 {
        assert(text.subrange(start, text.len() as int) =~= last);
    } else {
        let front = joined(items.drop_last());
        assert(text == front + ", "@ + last);
        assert(text.subrange(start, text.len() as int) =~= last);
        assert(text.subrange(0, start - 2) =~= front);
        assert forall|k: int| start < k < text.len() implies text[k] != mark by {
            assert(text[k] == last[k - start]);
        }
        assert(text[start] == last[0]);
    }
}

/// Joined items that are each headed by one mark can be told apart again:
/// two such sequences with the same joined text are the same.
proof fn lemma_joined_injective(one: Seq<Seq<char>>, other: Seq<Seq<char>>, mark: char)
    requires
        all_headed(one, mark),
        all_headed(other, mark),
        mark != ',',
        mark != ' ',
        joined(one) == joined(other),
    ensures
        one == other,
    decreases one.len(),
{
    reveal_strlit(", ");
    let text = joined(one);
    if one.len() == 0 {
        if other.len() > 0 {
            lemma_joined_last(other, mark);
            assert(headed(other.last(), mark));
        }
        assert(one =~= other);
    } else if other.len() == 0 {
        lemma_joined_last(one, mark);
        assert(headed(one.last(), mark));
    } else {
        lemma_joined_last(one, mark);
        lemma_joined_last(other, mark);
        let start = text.len() - one.last().len();
        let other_start = text.len() - other.last().len();
        assert(start == other_start) by {
            if start < other_start {
                assert(text[other_start] == mark);
            } else if other_start < start {
                assert(text[start] == mark);
            }
        }
        assert(one.last() == other.last());
        if one.len() == 1 || other.len() == 1 {
            assert(one.len() == 1 && other.len() == 1);
            assert(one =~= other);
        } else {
            let front = one.drop_last();
            let other_front = other.drop_last();
            assert forall|i: int| 0 <= i < front.len() implies headed(
                #[trigger] front[i],
                mark,
            ) by {
                assert(front[i] == one[i]);
            }
            assert forall|i: int| 0 <= i < other_front.len() implies headed(
                #[trigger] other_front[i],
                mark,
            ) by {
                assert(other_front[i] == other[i]);
            }
            lemma_joined_injective(front, other_front, mark);
            assert(one =~= front.push(one.last()));
            assert(other =~= other_front.push(other.last()));
        }
    }
}

/// Whether a character may stand in the text of a number: a digit, a
/// letter, a point or a sign.
pub open spec fn is_number_char(c: char) -> bool {
    ||| '0' <= c <= '9'
    ||| 'a' <= c <= 'z'
    ||| 'A' <= c <= 'Z'
    ||| c == '.'
    ||| c == '-'
    ||| c == '+'
}

/// Whether a text is made of such characters alone.
pub open spec fn is_number_text(text: Seq<char>) -> bool {
    forall|k: int| 0 <= k < text.len() ==> is_number_char(#[trigger] text[k])
}

/// Whether both coordinates of every point of every cell are number texts.
pub open spec fn are_number_texts(cells: Seq<Seq<(Seq<char>, Seq<char>)>>) -> bool {
    forall|i: int, k: int|
        0 <= i < cells.len() && 0 <= k < cells[i].len() ==> is_number_text(
            (#[trigger] cells[i][k]).0,
        ) && is_number_text(cells[i][k].1)
}

/// The texts of the points of a cell.
pub open spec fn point_texts(cell: Seq<(Seq<char>, Seq<char>)>) -> Seq<Seq<char>> {
    Seq::new(cell.len(), |k: int| point_text(cell[k]))
}

/// The texts of the cells.
pub open spec fn cell_texts(cells: Seq<Seq<(Seq<char>, Seq<char>)>>) -> Seq<Seq<char>> {
    Seq::new(cells.len(), |k: int| cell_text(cells[k]))
}

/// A number text holds no character that is not a number character.
proof fn lemma_number_text_lacks(text: Seq<char>, mark: char)
    requires
        is_number_text(text),
        !is_number_char(mark),
    ensures
        lacks(text, mark),
{
    assert forall|k: int| 0 <= k < text.len() implies text[k] != mark by {
        assert(is_number_char(text[k]));
    }
}

/// The text of a point begins with its round bracket, holds no other, and
/// holds neither a square bracket nor a line break.
proof fn lemma_point_text_shape(point: (Seq<char>, Seq<char>))
    requires
        is_number_text(point.0),
        is_number_text(point.1),
    ensures
        headed(point_text(point), '('),
        lacks(point_text(point), '['),
        lacks(point_text(point), '\n'),
{
    reveal_strlit("(");
    reveal_strlit(", ");
    reveal_strlit(")");
    lemma_number_text_lacks(point.0, '(');
    lemma_number_text_lacks(point.1, '(');
    lemma_number_text_lacks(point.0, '[');
    lemma_number_text_lacks(point.1, '[');
    lemma_number_text_lacks(point.0, '\n');
    lemma_number_text_lacks(point.1, '\n');
    let text = point_text(point);
    let x = point.0;
    let y = point.1;
    assert(text.len() == x.len() + y.len() + 4);
    assert forall|k: int| 0 <= k < text.len() implies (k > 0 ==> text[k] != '(') && text[k] != '['
        && text[k] != '\n' by {
        if k == 0 {
        } else if k < 1 + x.len() {
            assert(text[k] == x[k - 1]);
        } else if k < 3 + x.len() {
        } else if k < 3 + x.len() + y.len() {
            assert(text[k] == y[k - 3 - x.len()]);
        } else {
        }
    }
}

/// The text of a point tells its two coordinates.
proof fn lemma_point_text_injective(one: (Seq<char>, Seq<char>), other: (Seq<char>, Seq<char>))
    requires
        is_number_text(one.0),
        is_number_text(other.0),
        point_text(one) == point_text(other),
    ensures
        one == other,
{
    reveal_strlit("(");
    reveal_strlit(", ");
    reveal_strlit(")");
    lemma_number_text_lacks(one.0, ',');
    lemma_number_text_lacks(other.0, ',');
    let text = point_text(one);
    let same = point_text(other);
    let n = one.0.len() as int;
    let m = other.0.len() as int;
    assert(text.len() == n + one.1.len() + 4);
    assert(same.len() == m + other.1.len() + 4);
    assert(text[1 + n] == ',');
    assert(same[1 + m] == ',');
    assert(n == m) by {
        if n < m {
            assert(same[1 + n] == other.0[n]);
        } else if m < n {
            assert(text[1 + m] == one.0[m]);
        }
    }
    assert(one.0 =~= other.0) by {
        assert forall|k: int| 0 <= k < n implies one.0[k] == other.0[k] by {
            assert(text[k + 1] == one.0[k]);
            assert(same[k + 1] == other.0[k]);
        }
    }
    assert(one.1 =~= other.1) by {
        assert forall|k: int| 0 <= k < one.1.len() implies one.1[k] == other.1[k] by {
            assert(text[k + 3 + n] == one.1[k]);
            assert(same[k + 3 + m] == other.1[k]);
        }
    }
}

/// The text of a cell begins with its square bracket, holds no other
/// opening one, and holds no line break.
proof fn lemma_cell_text_shape(cell: Seq<(Seq<char>, Seq<char>)>)
    requires
        forall|k: int|
            0 <= k < cell.len() ==> is_number_text((#[trigger] cell[k]).0) && is_number_text(
                cell[k].1,
            ),
    ensures
        headed(cell_text(cell), '['),
        lacks(cell_text(cell), '\n'),
        all_headed(point_texts(cell), '('),
{
    reveal_strlit("[");
    reveal_strlit("]");
    let items = point_texts(cell);
    assert forall|k: int| 0 <= k < items.len() implies headed(#[trigger] items[k], '(') && lacks(
        items[k],
        '[',
    ) && lacks(items[k], '\n') by {
        lemma_point_text_shape(cell[k]);
    }
    lemma_joined_lacks(items, '[');
    lemma_joined_lacks(items, '\n');
    let inner = joined(items);
    let text = cell_text(cell);
    assert(text == "["@ + inner + "]"@);
    assert forall|k: int| 0 <= k < text.len() implies (k > 0 ==> text[k] != '[') && text[k]
        != '\n' by {
        if 0 < k < 1 + inner.len() {
            assert(text[k] == inner[k - 1]);
        }
    }
}

/// A list in square brackets tells what stands between the brackets.
proof fn lemma_bracketed_injective(one: Seq<Seq<char>>, other: Seq<Seq<char>>)
    requires
        bracketed(one) == bracketed(other),
    ensures
        joined(one) == joined(other),
{
    reveal_strlit("[");
    reveal_strlit("]");
    let a = joined(one);
    let b = joined(other);
    assert(bracketed(one).len() == a.len() + 2);
    assert(bracketed(other).len() == b.len() + 2);
    assert(a =~= b) by {
        assert forall|k: int| 0 <= k < a.len() implies a[k] == b[k] by {
            assert(bracketed(one)[k + 1] == a[k]);
            assert(bracketed(other)[k + 1] == b[k]);
        }
    }
}

/// The text of a cell tells its points.
proof fn lemma_cell_text_injective(
    one: Seq<(Seq<char>, Seq<char>)>,
    other: Seq<(Seq<char>, Seq<char>)>,
)
    requires
        forall|k: int|
            0 <= k < one.len() ==> is_number_text((#[trigger] one[k]).0) && is_number_text(
                one[k].1,
            ),
        forall|k: int|
            0 <= k < other.len() ==> is_number_text((#[trigger] other[k]).0) && is_number_text(
                other[k].1,
            ),
        cell_text(one) == cell_text(other),
    ensures
        one == other,
{
    lemma_cell_text_shape(one);
    lemma_cell_text_shape(other);
    lemma_bracketed_injective(point_texts(one), point_texts(other));
    lemma_joined_injective(point_texts(one), point_texts(other), '(');
    assert(one.len() == other.len()) by {
        assert(point_texts(one).len() == one.len());
        assert(point_texts(other).len() == other.len());
    }
    assert(one =~= other) by {
        assert forall|k: int| 0 <= k < one.len() implies one[k] == other[k] by {
            assert(point_texts(one)[k] == point_text(one[k]));
            assert(point_texts(other)[k] == point_text(other[k]));
            lemma_point_text_injective(one[k], other[k]);
        }
    }
}

/// The text of the cells holds no line break and tells the cells.
proof fn lemma_points_text_shape(cells: Seq<Seq<(Seq<char>, Seq<char>)>>)
    requires
        are_number_texts(cells),
    ensures
        lacks(points_text(cells), '\n'),
        all_headed(cell_texts(cells), '['),
{
    reveal_strlit("[");
    reveal_strlit("]");
    let items = cell_texts(cells);
    assert forall|i: int| 0 <= i < items.len() implies headed(#[trigger] items[i], '[') && lacks(
        items[i],
        '\n',
    ) by {
        lemma_cell_text_shape(cells[i]);
    }
    lemma_joined_lacks(items, '\n');
    let inner = joined(items);
    let text = points_text(cells);
    assert(text == "["@ + inner + "]"@);
    assert forall|k: int| 0 <= k < text.len() implies text[k] != '\n' by {
        if 0 < k < 1 + inner.len() {
            assert(text[k] == inner[k - 1]);
        }
    }
}

/// The text of the cells tells the cells.
proof fn lemma_points_text_injective(
    one: Seq<Seq<(Seq<char>, Seq<char>)>>,
    other: Seq<Seq<(Seq<char>, Seq<char>)>>,
)
    requires
        are_number_texts(one),
        are_number_texts(other),
        points_text(one) == points_text(other),
    ensures
        one == other,
{
    lemma_points_text_shape(one);
    lemma_points_text_shape(other);
    lemma_bracketed_injective(cell_texts(one), cell_texts(other));
    lemma_joined_injective(cell_texts(one), cell_texts(other), '[');
    assert(one.len() == other.len()) by {
        assert(cell_texts(one).len() == one.len());
        assert(cell_texts(other).len() == other.len());
    }
    assert(one =~= other) by {
        assert forall|i: int| 0 <= i < one.len() implies one[i] == other[i] by {
            assert(cell_texts(one)[i] == cell_text(one[i]));
            assert(cell_texts(other)[i] == cell_text(other[i]));
            lemma_cell_text_injective(one[i], other[i]);
        }
    }
}

/// The cells, the half extent and the title that a record text carries:
/// those whose record, written with number texts, is that text.
pub open spec fn parsed(text: Seq<char>) -> (
    Seq<Seq<(Seq<char>, Seq<char>)>>,
    Seq<char>,
    Seq<char>,
) {
    choose|record: (Seq<Seq<(Seq<char>, Seq<char>)>>, Seq<char>, Seq<char>)|
        are_number_texts(record.0) && is_number_text(record.1) && record_text(
            record.0,
            record.1,
            record.2,
        ) == text
}

/// Two records with the same text carry the same cells, the same half
/// extent and the same title, where the coordinates and the half extent are
/// number texts. The title may be any text.
pub proof fn lemma_record_injective(
    cells: Seq<Seq<(Seq<char>, Seq<char>)>>,
    length: Seq<char>,
    title: Seq<char>,
    other_cells: Seq<Seq<(Seq<char>, Seq<char>)>>,
    other_length: Seq<char>,
    other_title: Seq<char>,
)
    requires
        are_number_texts(cells),
        is_number_text(length),
        are_number_texts(other_cells),
        is_number_text(other_length),
        record_text(cells, length, title) == record_text(other_cells, other_length, other_title),
    ensures
        cells == other_cells,
        length == other_length,
        title == other_title,
{
    reveal_strlit("{\"points\":");
    reveal_strlit(",\n\"length\":");
    reveal_strlit(",\n\"title\":\"");
    reveal_strlit("\"}");
    let text = record_text(cells, length, title);
    let same = record_text(other_cells, other_length, other_title);
    let list = points_text(cells);
    let other_list = points_text(other_cells);
    lemma_points_text_shape(cells);
    lemma_points_text_shape(other_cells);
    lemma_number_text_lacks(length, '\n');
    lemma_number_text_lacks(other_length, '\n');
    let a = list.len() as int;
    let b = other_list.len() as int;
    let n = length.len() as int;
    let m = other_length.len() as int;
    assert(text.len() == 34 + a + n + title.len());
    assert(same.len() == 34 + b + m + other_title.len());
    assert(forall|k: int| 0 <= k < a ==> text[10 + k] == list[k]);
    assert(forall|k: int| 0 <= k < b ==> same[10 + k] == other_list[k]);
    assert(text[10 + a] == ',' && text[11 + a] == '\n');
    assert(same[10 + b] == ',' && same[11 + b] == '\n');
    assert(a == b) by {
        if a < b {
            assert(same[11 + a] == other_list[1 + a]);
        } else if b < a {
            assert(text[11 + b] == list[1 + b]);
        }
    }
    assert(list =~= other_list);
    lemma_points_text_injective(cells, other_cells);
    assert(forall|k: int| 0 <= k < n ==> text[21 + a + k] == length[k]);
    assert(forall|k: int| 0 <= k < m ==> same[21 + b + k] == other_length[k]);
    assert(text[21 + a + n] == ',' && text[22 + a + n] == '\n');
    assert(same[21 + b + m] == ',' && same[22 + b + m] == '\n');
    assert(n == m) by {
        if n < m {
            if n + 1 < m {
                assert(same[22 + a + n] == other_length[1 + n]);
            } else {
                assert(same[22 + a + n] == ',');
            }
        } else if m < n {
            if m + 1 < n {
                assert(text[22 + b + m] == length[1 + m]);
            } else {
                assert(text[22 + b + m] == ',');
            }
        }
    }
    assert(length =~= other_length);
    assert(title =~= other_title) by {
        assert forall|k: int| 0 <= k < title.len() implies title[k] == other_title[k] by {
            assert(text[32 + a + n + k] == title[k]);
            assert(same[32 + b + m + k] == other_title[k]);
        }
    }
}

/// Reading a record back gives the cells, the half extent and the title
/// that it was written from, where the coordinates and the half extent are
/// number texts.
pub proof fn lemma_record_round_trip(
    cells: Seq<Seq<(Seq<char>, Seq<char>)>>,
    length: Seq<char>,
    title: Seq<char>,
)
    requires
        are_number_texts(cells),
        is_number_text(length),
    ensures
        parsed(record_text(cells, length, title)) == (cells, length, title),
{
    let text = record_text(cells, length, title);
    let written = (cells, length, title);
    assert(are_number_texts(written.0) && is_number_text(written.1) && record_text(
        written.0,
        written.1,
        written.2,
    ) == text);
    let read = parsed(text);
    lemma_record_injective(cells, length, title, read.0, read.1, read.2);
}

/// What a contour is written as is made of number texts where the
/// coordinates that the caller gave are: the sentinel pair is.
pub proof fn lemma_emitted_number_texts(
    cells: Seq<Seq<ContourPoint>>,
    given: Seq<Seq<(Seq<char>, Seq<char>)>>,
)
    requires
        fits(cells, given),
        are_number_texts(given),
    ensures
        are_number_texts(emitted(cells, given)),
{
    reveal_strlit("0.0");
    let written = emitted(cells, given);
    assert forall|i: int, k: int| 0 <= i < written.len() && 0 <= k < written[i].len() implies {
        &&& is_number_text((#[trigger] written[i][k]).0)
        &&& is_number_text(written[i][k].1)
    } by {
        assert(given[i].len() == cells[i].len());
        assert(is_number_text(given[i][k].0) && is_number_text(given[i][k].1));
    }
}

/// Reading the record of a contour back gives what was written: the point
/// sequences with the sentinel in its places, the half extent and the
/// title, where the coordinates and the half extent are number texts.
pub proof fn lemma_contour_round_trip(
    cells: Seq<Seq<ContourPoint>>,
    given: Seq<Seq<(Seq<char>, Seq<char>)>>,
    length: Seq<char>,
    title: Seq<char>,
)
    requires
        fits(cells, given),
        are_number_texts(given),
        is_number_text(length),
    ensures
        parsed(record_text(emitted(cells, given), length, title)) == (
            emitted(cells, given),
            length,
            title,
        ),
{
    lemma_emitted_number_texts(cells, given);
    lemma_record_round_trip(emitted(cells, given), length, title);
}

} // verus!
