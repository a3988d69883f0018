//! What holds of the pipeline as a whole.

use crate::cell::{ContourPoint, Corner, Crossing, Edge};
use crate::field::is_grid;
use crate::marching::{binarize, cell_code, center, contour, encode, is_binary};
use crate::topology::{
    cell_points_spec, inside_corners, lemma_inside_corners, lemma_segments_rule, optional, pack,
    points_of, Topology,
};
use vstd::prelude::*;

verus! {

/// A field of flags read as a field of samples: `low` stands for the flag
/// 0 and `high` for the flag 1.
pub open spec fn as_samples(flags: Seq<Seq<u8>>, low: i64, high: i64) -> Seq<Seq<i64>> {
    Seq::new(
        flags.len(),
        |i: int|
            Seq::new(
                flags[i].len(),
                |j: int|
                    if flags[i][j] == 0 {
                        low
                    } else {
                        high
                    },
            ),
    )
}

/// A field of samples with the sign of every sample changed.
pub open spec fn negated(values: Seq<Seq<i64>>) -> Seq<Seq<i64>> {
    Seq::new(values.len(), |i: int| Seq::new(values[i].len(), |j: int| (-values[i][j]) as i64))
}

/// A point sequence with every crossing approached from the other end of
/// its edge.
pub open spec fn reversed_points(points: Seq<ContourPoint>) -> Seq<ContourPoint> {
    Seq::new(
        points.len(),
        |k: int|
            match points[k] {
                ContourPoint::Sentinel => ContourPoint::Sentinel,
                ContourPoint::Crossing(crossing) => ContourPoint::Crossing(crossing.reversed()),
            },
    )
}

/// A sequence of crossings with every one of them turned round.
pub open spec fn turned(segments: Seq<Crossing>) -> Seq<Crossing> {
    Seq::new(segments.len(), |k: int| segments[k].reversed())
}

/// The place of a crossing's edge in the order left, top, bottom, right.
pub open spec fn edge_rank(crossing: Crossing) -> int {
    match crossing.edge_spec() {
        Some(Edge::Left) => 0,
        Some(Edge::Top) => 1,
        Some(Edge::Bottom) => 2,
        Some(Edge::Right) => 3,
        None => 4,
    }
}

/// The sample at a corner of cell `(i, j)`.
pub open spec fn sample_at(values: Seq<Seq<i64>>, i: int, j: int, corner: Corner) -> i64 {
    values[i + corner.row_offset()][j + corner.col_offset()]
}

/// Codes and topologies stand for one another.
pub proof fn lemma_code_round_trip(topology: Topology, code: u8)
    ensures
        Topology::of_code(topology.code_spec()) == Some(topology),
        Topology::of_code(code) matches Some(t) ==> t.code_spec() == code,
        Topology::of_code(code) is Some <==> code <= 15,
{
}

/// The code of a cell lies between 0 and 15 and tells of each corner
/// whether it lies inside: code 0 means that all four corners lie outside,
/// code 15 that all four lie inside.
pub proof fn lemma_code_reflects_flags(
    top_left: u8,
    top_right: u8,
    bottom_right: u8,
    bottom_left: u8,
)
    requires
        top_left <= 1,
        top_right <= 1,
        bottom_right <= 1,
        bottom_left <= 1,
    ensures
        ({
            let code = pack(
                top_left as int,
                top_right as int,
                bottom_right as int,
                bottom_left as int,
            );
            &&& 0 <= code <= 15
            &&& code == 0 <==> top_left == 0 && top_right == 0 && bottom_right == 0 && bottom_left
                == 0
            &&& code == 15 <==> top_left == 1 && top_right == 1 && bottom_right == 1 && bottom_left
                == 1
            &&& Topology::of_code(code as u8) matches Some(topology) && {
                &&& topology.has(Corner::TopLeft) == (top_left == 1)
                &&& topology.has(Corner::TopRight) == (top_right == 1)
                &&& topology.has(Corner::BottomRight) == (bottom_right == 1)
                &&& topology.has(Corner::BottomLeft) == (bottom_left == 1)
            }
        }),
{
    let code = pack(top_left as int, top_right as int, bottom_right as int, bottom_left as int);
    lemma_inside_corners(Topology::of_code(code as u8).unwrap());
}

/// Every crossing of a cell lies on an edge of the cell and runs from a
/// corner outside to a corner inside.
pub proof fn lemma_crossings_run_inward(topology: Topology)
    ensures
        forall|k: int|
            0 <= k < topology.segments_spec().len() ==> {
                let crossing = #[trigger] topology.segments_spec()[k];
                &&& !topology.has(crossing.from)
                &&& topology.has(crossing.to)
                &&& crossing.edge_spec() is Some
            },
{
    lemma_inside_corners(topology);
}

/// Every edge whose ends lie on different sides carries a crossing.
pub proof fn lemma_separating_edges_are_crossed(topology: Topology, edge: Edge)
    requires
        topology.has(edge.ends().0) != topology.has(edge.ends().1),
    ensures
        exists|k: int|
            0 <= k < topology.segments_spec().len() && (
            #[trigger] topology.segments_spec()[k]).edge_spec() == Some(edge),
{
    let left = optional(topology.crossing_on(Edge::Left));
    let top = optional(topology.crossing_on(Edge::Top));
    let bottom = optional(topology.crossing_on(Edge::Bottom));
    let right = optional(topology.crossing_on(Edge::Right));
    let segments = topology.segments_spec();
    lemma_segments_rule(topology);
    let k: int = if topology == Topology::SaddleBottomLeftTopRight {
        match edge {
            Edge::Left => 0int,
            Edge::Bottom => 1int,
            Edge::Top => 2int,
            Edge::Right => 3int,
        }
    } else {
        assert(segments == left + top + bottom + right);
        match edge {
            Edge::Left => 0int,
            Edge::Top => left.len() as int,
            Edge::Bottom => (left.len() + top.len()) as int,
            Edge::Right => (left.len() + top.len() + bottom.len()) as int,
        }
    };
    assert(segments[k].edge_spec() == Some(edge));
}

/// No edge carries two crossings.
pub proof fn lemma_edges_are_crossed_once(topology: Topology)
    ensures
        forall|k: int, m: int|
            0 <= k < m < topology.segments_spec().len() ==> edge_rank(
                topology.segments_spec()[k],
            ) != edge_rank(topology.segments_spec()[m]),
{
}

/// Away from the saddles the crossings of a cell come in the order of
/// their edges: left, top, bottom, right.
pub proof fn lemma_crossings_follow_edge_order(topology: Topology)
    requires
        !topology.is_saddle(),
    ensures
        forall|k: int, m: int|
            0 <= k < m < topology.segments_spec().len() ==> edge_rank(
                topology.segments_spec()[k],
            ) < edge_rank(topology.segments_spec()[m]),
{
}

/// The edges that meet at `corner`.
pub open spec fn meets(edge: Edge, corner: Corner) -> bool {
    edge.ends().0 == corner || edge.ends().1 == corner
}

/// At a saddle the four crossings make two segments, the first two and the
/// last two, and each segment cuts off one inside corner: its two
/// crossings lie on the two edges that meet at that corner and both run
/// towards it. The two segments belong to the two inside corners, that on
/// the left first.
pub proof fn lemma_saddle_cuts_inside_corners(topology: Topology)
    requires
        topology.is_saddle(),
    ensures
        ({
            let segments = topology.segments_spec();
            let first = segments[0].to;
            let second = segments[2].to;
            &&& segments.len() == 4
            &&& segments[1].to == first
            &&& segments[3].to == second
            &&& topology.has(first)
            &&& topology.has(second)
            &&& first != second
            &&& first == Corner::TopLeft || first == Corner::BottomLeft
            &&& segments[0].edge_spec() == Some(Edge::Left)
            &&& segments[0].edge_spec() != segments[1].edge_spec()
            &&& segments[2].edge_spec() != segments[3].edge_spec()
            &&& forall|k: int|
                0 <= k < 2 ==> meets((#[trigger] segments[k]).edge_spec().unwrap(), first)
            &&& forall|k: int|
                2 <= k < 4 ==> meets((#[trigger] segments[k]).edge_spec().unwrap(), second)
        }),
{
    lemma_inside_corners(topology);
}

/// The centres of neighbouring nodes are two units apart: from one column
/// to the next `x` falls by two, from one row to the next `y` rises by two,
/// and neither depends on the other index. A unit being the half extent
/// divided by the partition size, the spacing is twice that.
pub proof fn lemma_center_spacing(size: int, i: int, j: int, other: int)
    ensures
        center(size, i, j + 1).0 == center(size, i, j).0 - 2,
        center(size, i + 1, j).1 == center(size, i, j).1 + 2,
        center(size, other, j).0 == center(size, i, j).0,
        center(size, i, other).1 == center(size, i, j).1,
{
}

/// The centres of the nodes lie symmetrically about the origin and within
/// the square: the first and the last index of a side mirror one another.
pub proof fn lemma_center_within(size: int, i: int, j: int)
    requires
        0 <= i < size,
        0 <= j < size,
    ensures
        -size < center(size, i, j).0 < size,
        -size < center(size, i, j).1 < size,
        center(size, size - 1 - i, size - 1 - j).0 == -center(size, i, j).0,
        center(size, size - 1 - i, size - 1 - j).1 == -center(size, i, j).1,
{
}

/// Classifying the flags of a field once more, as samples and against the
/// same isovalue, gives the same flags again, where the isovalue lies
/// between the two samples that stand for the flags: at least that for 0
/// and below that for 1.
pub proof fn lemma_binarize_idempotent(
    values: Seq<Seq<i64>>,
    isovalue: i64,
    low: i64,
    high: i64,
)
    requires
        low <= isovalue < high,
    ensures
        binarize(as_samples(binarize(values, isovalue), low, high), isovalue) == binarize(
            values,
            isovalue,
        ),
        is_binary(binarize(values, isovalue)),
{
    assert(binarize(as_samples(binarize(values, isovalue), low, high), isovalue) =~~= binarize(
        values,
        isovalue,
    ));
}

/// The complement of each topology, written out: its code, its own
/// complement and its corners.
proof fn lemma_complement_table(topology: Topology)
    ensures
        topology.complement().code_spec() == 15 - topology.code_spec(),
        Topology::of_code((15 - topology.code_spec()) as u8) == Some(topology.complement()),
        topology.complement().complement() == topology,
        inside_corners(topology.complement()).0 == !inside_corners(topology).0,
        inside_corners(topology.complement()).1 == !inside_corners(topology).1,
        inside_corners(topology.complement()).2 == !inside_corners(topology).2,
        inside_corners(topology.complement()).3 == !inside_corners(topology).3,
{
    reveal(Topology::complement);
}

/// Exchanging inside and outside turns code `c` into code `15 - c`, and
/// doing so twice changes nothing. Every corner changes sides.
pub proof fn lemma_complement_flips(topology: Topology)
    ensures
        topology.complement().code_spec() == 15 - topology.code_spec(),
        Topology::of_code((15 - topology.code_spec()) as u8) == Some(topology.complement()),
        topology.complement().complement() == topology,
        forall|corner: Corner| topology.complement().has(corner) == !topology.has(corner),
{
    lemma_complement_table(topology);
    lemma_inside_corners(topology);
    lemma_inside_corners(topology.complement());
    assert forall|corner: Corner| topology.complement().has(corner) == !topology.has(corner) by {
        match corner {
            Corner::TopLeft => {},
            Corner::TopRight => {},
            Corner::BottomRight => {},
            Corner::BottomLeft => {},
        }
    }
}

/// Turning every crossing round turns the point sequence round.
proof fn lemma_points_turned(segments: Seq<Crossing>)
    ensures
        points_of(turned(segments)) == reversed_points(points_of(segments)),
{
    assert(points_of(turned(segments)) =~= reversed_points(points_of(segments)));
}

/// Away from the saddles, exchanging inside and outside keeps the
/// crossings of a cell on their edges and in their order and turns every
/// one of them round: codes `c` and `15 - c` are such a pair, 1 and 14, 2
/// and 13, 3 and 12, 4 and 11, 6 and 9, 7 and 8.
pub proof fn lemma_complement_reverses(topology: Topology)
    requires
        !topology.is_saddle(),
    ensures
        topology.complement().segments_spec() == turned(topology.segments_spec()),
        topology.complement().points_spec() == reversed_points(topology.points_spec()),
{
    assert(topology.complement().segments_spec() =~= turned(topology.segments_spec())) by {
        reveal(Topology::complement);
    }
    lemma_points_turned(topology.segments_spec());
}

/// The two saddles are complements of one another. Exchanging inside and
/// outside turns every crossing round there too, but the segments change:
/// what was cut off as an inside corner is an outside corner now, and the
/// two crossings in the middle change places.
pub proof fn lemma_saddle_complement(topology: Topology)
    requires
        topology.is_saddle(),
    ensures
        topology.complement().is_saddle(),
        topology.complement() != topology,
        ({
            let mine = turned(topology.segments_spec());
            topology.complement().segments_spec() == seq![mine[0], mine[2], mine[1], mine[3]]
        }),
{
    reveal(Topology::complement);
    let mine = turned(topology.segments_spec());
    assert(topology.complement().segments_spec() =~= seq![mine[0], mine[2], mine[1], mine[3]]);
}

/// The cells with codes `c` and `15 - c` have the same crossings but for
/// their direction, the saddle codes 5 and 10 apart.
pub proof fn lemma_complementary_codes(code: u8)
    requires
        code <= 15,
        code != 5,
        code != 10,
    ensures
        cell_points_spec((15 - code) as u8) == reversed_points(cell_points_spec(code)),
{
    let topology = Topology::of_code(code).unwrap();
    lemma_complement_table(topology);
    lemma_complement_reverses(topology);
}

/// Changing the sign of every sample and of the isovalue exchanges inside
/// and outside, where no sample equals the isovalue: every cell then has
/// the complementary code and, unless it is a saddle, keeps its crossings,
/// each turned round.
pub proof fn lemma_negation_reverses(
    values: Seq<Seq<i64>>,
    isovalue: i64,
    size: int,
    i: int,
    j: int,
)
    requires
        size >= 2,
        is_grid(values, size, size),
        isovalue > i64::MIN,
        forall|r: int, c: int|
            0 <= r < size && 0 <= c < size ==> #[trigger] values[r][c] != isovalue && values[r][c]
                > i64::MIN,
        0 <= i < size - 1,
        0 <= j < size - 1,
    ensures
        binarize(negated(values), (-isovalue) as i64)[i][j] == 1 - binarize(values, isovalue)[i][j],
        encode(binarize(negated(values), (-isovalue) as i64), size)[i][j] == 15 - encode(
            binarize(values, isovalue),
            size,
        )[i][j],
        ({
            let code = encode(binarize(values, isovalue), size)[i][j];
            let points = contour(encode(binarize(values, isovalue), size), size)[i][j];
            code != 5 && code != 10 ==> contour(
                encode(binarize(negated(values), (-isovalue) as i64), size),
                size,
            )[i][j] == reversed_points(points)
        }),
{
    let flags = binarize(values, isovalue);
    let mirrored = binarize(negated(values), (-isovalue) as i64);
    assert forall|r: int, c: int| 0 <= r < size && 0 <= c < size implies #[trigger] mirrored[r][c]
        == 1 - flags[r][c] by {
        assert(values[r][c] != isovalue);
    }
    let code = encode(flags, size)[i][j];
    let other = encode(mirrored, size)[i][j];
    assert(code == cell_code(flags, i, j));
    assert(other == cell_code(mirrored, i, j));
    assert(other == 15 - code);
    if code != 5 && code != 10 {
        lemma_complementary_codes(code);
    }
}

/// The two ends of every crossing carry samples on different sides of the
/// isovalue: the sample at the outside end does not exceed it, the sample
/// at the inside end does. No crossing is therefore interpolated between
/// two equal samples.
pub proof fn lemma_crossing_ends_differ(
    values: Seq<Seq<i64>>,
    isovalue: i64,
    size: int,
    i: int,
    j: int,
    k: int,
)
    requires
        size >= 2,
        is_grid(values, size, size),
        0 <= i < size - 1,
        0 <= j < size - 1,
        0 <= k < contour(encode(binarize(values, isovalue), size), size)[i][j].len(),
    ensures
        contour(encode(binarize(values, isovalue), size), size)[i][j][k]
            matches ContourPoint::Crossing(crossing) ==> sample_at(values, i, j, crossing.from) <= isovalue < sample_at(
            values,
            i,
            j,
            crossing.to,
        ),
{
    let flags = binarize(values, isovalue);
    let code = encode(flags, size)[i][j];
    assert(code == cell_code(flags, i, j));
    lemma_code_reflects_flags(flags[i][j], flags[i][j + 1], flags[i + 1][j + 1], flags[i + 1][j]);
    let topology = Topology::of_code(code).unwrap();
    lemma_crossings_run_inward(topology);
    let points = contour(encode(flags, size), size)[i][j];
    assert(points == topology.points_spec());
    if points[k] is Crossing {
        let crossing = topology.segments_spec()[k];
        assert(points[k] == ContourPoint::Crossing(crossing));
        assert(!topology.has(crossing.from) && topology.has(crossing.to));
        match crossing.from {
            Corner::TopLeft => {},
            Corner::TopRight => {},
            Corner::BottomRight => {},
            Corner::BottomLeft => {},
        }
        match crossing.to {
            Corner::TopLeft => {},
            Corner::TopRight => {},
            Corner::BottomRight => {},
            Corner::BottomLeft => {},
        }
    }
}

/// Where linear interpolation puts the isovalue on an edge, in exact
/// terms. The edge runs from the coordinate `from` to the coordinate `to`
/// and carries the samples `from_sample` and `to_sample` at its ends; the
/// isovalue then lies at
/// `from + (to - from) * (isovalue - from_sample) / (to_sample - from_sample)`.
/// This is that place multiplied by `to_sample - from_sample`.
pub open spec fn scaled_place(
    from: int,
    to: int,
    from_sample: int,
    to_sample: int,
    isovalue: int,
) -> int {
    from * (to_sample - from_sample) + (to - from) * (isovalue - from_sample)
}

/// A crossing lies on its edge: between the two ends, and not at the
/// inside end. Its ends carry samples on different sides of the isovalue,
/// so the interpolation divides by a positive number.
pub proof fn lemma_interpolation_between(
    from: int,
    to: int,
    from_sample: int,
    to_sample: int,
    isovalue: int,
)
    requires
        from_sample <= isovalue < to_sample,
    ensures
        to_sample - from_sample > 0,
        from <= to ==> from * (to_sample - from_sample) <= scaled_place(
            from,
            to,
            from_sample,
            to_sample,
            isovalue,
        ) <= to * (to_sample - from_sample),
        from >= to ==> from * (to_sample - from_sample) >= scaled_place(
            from,
            to,
            from_sample,
            to_sample,
            isovalue,
        ) >= to * (to_sample - from_sample),
        from != to ==> scaled_place(from, to, from_sample, to_sample, isovalue) != to * (to_sample
            - from_sample),
{
    let span = to_sample - from_sample;
    let part = isovalue - from_sample;
    assert(0 <= part < span);
    assert(to * span - scaled_place(from, to, from_sample, to_sample, isovalue) == (to - from) * (
    span - part)) by (nonlinear_arith)
        requires
            span == to_sample - from_sample,
            part == isovalue - from_sample,
    ;
    assert(from <= to ==> (to - from) * part >= 0 && (to - from) * (span - part) >= 0)
        by (nonlinear_arith)
        requires
            0 <= part < span,
    ;
    assert(from >= to ==> (to - from) * part <= 0 && (to - from) * (span - part) <= 0)
        by (nonlinear_arith)
        requires
            0 <= part < span,
    ;
    assert(from != to ==> (to - from) * (span - part) != 0) by (nonlinear_arith)
        requires
            0 <= part < span,
    ;
}

/// Interpolating an edge from its other end, with the sign of both samples
/// and of the isovalue changed, gives the same place: the crossings of a
/// field and those of its negation at the negated isovalue coincide.
pub proof fn lemma_interpolation_symmetric(
    from: int,
    to: int,
    from_sample: int,
    to_sample: int,
    isovalue: int,
)
    ensures
        scaled_place(to, from, -to_sample, -from_sample, -isovalue) == scaled_place(
            from,
            to,
            from_sample,
            to_sample,
            isovalue,
        ),
        (-from_sample) - (-to_sample) == to_sample - from_sample,
{
    assert(scaled_place(to, from, -to_sample, -from_sample, -isovalue) == scaled_place(
        from,
        to,
        from_sample,
        to_sample,
        isovalue,
    )) by (nonlinear_arith);
}

/// The code and the points of a cell depend on the samples at its own four
/// corners alone: two fields that agree there agree on the cell.
pub proof fn lemma_cell_is_local(
    values: Seq<Seq<i64>>,
    others: Seq<Seq<i64>>,
    isovalue: i64,
    size: int,
    i: int,
    j: int,
)
    requires
        size >= 2,
        is_grid(values, size, size),
        is_grid(others, size, size),
        0 <= i < size - 1,
        0 <= j < size - 1,
        forall|corner: Corner|
            sample_at(values, i, j, corner) == #[trigger] sample_at(others, i, j, corner),
    ensures
        encode(binarize(values, isovalue), size)[i][j] == encode(
            binarize(others, isovalue),
            size,
        )[i][j],
        contour(encode(binarize(values, isovalue), size), size)[i][j] == contour(
            encode(binarize(others, isovalue), size),
            size,
        )[i][j],
{
    assert(sample_at(values, i, j, Corner::TopLeft) == sample_at(others, i, j, Corner::TopLeft));
    assert(sample_at(values, i, j, Corner::TopRight) == sample_at(others, i, j, Corner::TopRight));
    assert(sample_at(values, i, j, Corner::BottomRight) == sample_at(
        others,
        i,
        j,
        Corner::BottomRight,
    ));
    assert(sample_at(values, i, j, Corner::BottomLeft) == sample_at(
        others,
        i,
        j,
        Corner::BottomLeft,
    ));
    let flags = binarize(values, isovalue);
    let other_flags = binarize(others, isovalue);
    assert(encode(flags, size)[i][j] == cell_code(flags, i, j));
    assert(encode(other_flags, size)[i][j] == cell_code(other_flags, i, j));
}

/// A cell whose corners all lie on one side of the contour has no
/// crossing: its point sequence is the sentinel alone.
pub proof fn lemma_uniform_cell_is_empty(code: u8)
    requires
        code == 0 || code == 15,
    ensures
        cell_points_spec(code) == seq![ContourPoint::Sentinel],
{
    assert(points_of(Seq::<Crossing>::empty()) =~= seq![ContourPoint::Sentinel]);
}

/// A field that the isovalue never exceeds or always exceeds has no
/// crossing: the point sequence of every cell is the sentinel alone.
pub proof fn lemma_flat_field_is_empty(values: Seq<Seq<i64>>, isovalue: i64, size: int)
    requires
        size >= 2,
        is_grid(values, size, size),
        (forall|r: int, c: int|
            0 <= r < size && 0 <= c < size ==> #[trigger] values[r][c] <= isovalue) || (forall|
            r: int,
            c: int,
        | 0 <= r < size && 0 <= c < size ==> #[trigger] values[r][c] > isovalue),
    ensures
        forall|i: int, j: int|
            0 <= i < size - 1 && 0 <= j < size - 1 ==> #[trigger] contour(
                encode(binarize(values, isovalue), size),
                size,
            )[i][j] == seq![ContourPoint::Sentinel],
{
    let flags = binarize(values, isovalue);
    let codes = encode(flags, size);
    assert forall|i: int, j: int| 0 <= i < size - 1 && 0 <= j < size - 1 implies #[trigger] contour(
        codes,
        size,
    )[i][j] == seq![ContourPoint::Sentinel] by {
        let top_left = values[i][j] > isovalue;
        assert(top_left == (values[i][j + 1] > isovalue));
        assert(top_left == (values[i + 1][j + 1] > isovalue));
        assert(top_left == (values[i + 1][j] > isovalue));
        assert(codes[i][j] == cell_code(flags, i, j));
        assert(codes[i][j] == 0 || codes[i][j] == 15);
        lemma_uniform_cell_is_empty(codes[i][j]);
    }
}

} // verus!
