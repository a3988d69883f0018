//! Topology codes: which corners of a cell lie inside the contour, and the
//! edge crossings that follow from it.
//!
//! A code is the sum of the weights of the corners that lie inside: 8 for
//! the top-left, 4 for the top-right, 2 for the bottom-right and 1 for the
//! bottom-left corner. The contour crosses exactly the edges whose two ends
//! differ. The crossings of a cell are listed in the order of `Edge`; at a
//! saddle, where all four edges are crossed, they are listed corner by
//! corner: the two crossings next to one inside corner make one segment,
//! the two next to the other inside corner make another.

use crate::cell::{ContourPoint, Corner, Crossing, Edge};
use vstd::prelude::*;

verus! {

/// The sixteen ways in which the contour can pass through a cell, named
/// after the corners that lie inside.
#[derive(Clone, Copy, Debug, PartialEq, Eq, Structural)]
pub enum Topology {
    /// Code 0: no corner inside.
    Outside,
    /// Code 1: the bottom-left corner alone.
    BottomLeft,
    /// Code 2: the bottom-right corner alone.
    BottomRight,
    /// Code 3: both bottom corners.
    Bottom,
    /// Code 4: the top-right corner alone.
    TopRight,
    /// Code 5: the bottom-left and the top-right corner, a saddle.
    SaddleBottomLeftTopRight,
    /// Code 6: both right corners.
    Right,
    /// Code 7: every corner but the top-left.
    AllButTopLeft,
    /// Code 8: the top-left corner alone.
    TopLeft,
    /// Code 9: both left corners.
    Left,
    /// Code 10: the top-left and the bottom-right corner, a saddle.
    SaddleTopLeftBottomRight,
    /// Code 11: every corner but the top-right.
    AllButTopRight,
    /// Code 12: both top corners.
    Top,
    /// Code 13: every corner but the bottom-right.
    AllButBottomRight,
    /// Code 14: every corner but the bottom-left.
    AllButBottomLeft,
    /// Code 15: all four corners inside.
    Inside,
}

/// The code of a cell whose corners carry the given flags.
pub open spec fn pack(top_left: int, top_right: int, bottom_right: int, bottom_left: int) -> int {
    8 * top_left + 4 * top_right + 2 * bottom_right + bottom_left
}

/// A sequence of no element or one.
pub open spec fn optional<T>(item: Option<T>) -> Seq<T> {
    match item {
        Some(x) => seq![x],
        None => Seq::empty(),
    }
}

/// The point sequence of a cell with the given crossings: the crossings,
/// or the sentinel alone where there is none.
pub open spec fn points_of(segments: Seq<Crossing>) -> Seq<ContourPoint> {
    if segments.len() == 0 {
        seq![ContourPoint::Sentinel]
    } else {
        Seq::new(segments.len(), |k: int| ContourPoint::Crossing(segments[k]))
    }
}

/// Whether a point sequence is that of a saddle: four crossings, of which
/// the first two run towards one corner and the last two towards another.
pub open spec fn cuts_two_corners(points: Seq<ContourPoint>) -> bool {
    &&& points.len() == 4
    &&& points[0] matches ContourPoint::Crossing(a)
    &&& points[1] matches ContourPoint::Crossing(b)
    &&& points[2] matches ContourPoint::Crossing(c)
    &&& points[3] matches ContourPoint::Crossing(d)
    &&& a.to == b.to
    &&& c.to == d.to
    &&& a.to != c.to
}

/// The point sequence of a cell with the given code: the sentinel alone
/// where the contour does not pass through the cell, else its crossings.
/// A number above 15 is no code and has no points.
pub open spec fn cell_points_spec(code: u8) -> Seq<ContourPoint> {
    match Topology::of_code(code) {
        Some(topology) => topology.points_spec(),
        None => Seq::empty(),
    }
}

impl Topology {
    /// The number that stands for this topology.
    pub open spec fn code_spec(self) -> u8 {
        match self {
            Topology::Outside => 0,
            Topology::BottomLeft => 1,
            Topology::BottomRight => 2,
            Topology::Bottom => 3,
            Topology::TopRight => 4,
            Topology::SaddleBottomLeftTopRight => 5,
            Topology::Right => 6,
            Topology::AllButTopLeft => 7,
            Topology::TopLeft => 8,
            Topology::Left => 9,
            Topology::SaddleTopLeftBottomRight => 10,
            Topology::AllButTopRight => 11,
            Topology::Top => 12,
            Topology::AllButBottomRight => 13,
            Topology::AllButBottomLeft => 14,
            Topology::Inside => 15,
        }
    }

    /// The topology that `code` stands for, if it is one of the sixteen.
    pub open spec fn of_code(code: u8) -> Option<Topology> {
        if code == 0 {
            Some(Topology::Outside)
        } else if code == 1 {
            Some(Topology::BottomLeft)
        } else if code == 2 {
            Some(Topology::BottomRight)
        } else if code == 3 {
            Some(Topology::Bottom)
        } else if code == 4 {
            Some(Topology::TopRight)
        } else if code == 5 {
            Some(Topology::SaddleBottomLeftTopRight)
        } else if code == 6 {
            Some(Topology::Right)
        } else if code == 7 {
            Some(Topology::AllButTopLeft)
        } else if code == 8 {
            Some(Topology::TopLeft)
        } else if code == 9 {
            Some(Topology::Left)
        } else if code == 10 {
            Some(Topology::SaddleTopLeftBottomRight)
        } else if code == 11 {
            Some(Topology::AllButTopRight)
        } else if code == 12 {
            Some(Topology::Top)
        } else if code == 13 {
            Some(Topology::AllButBottomRight)
        } else if code == 14 {
            Some(Topology::AllButBottomLeft)
        } else if code == 15 {
            Some(Topology::Inside)
        } else {
            None
        }
    }

    /// Whether `corner` lies inside: whether its weight is part of the code.
    pub open spec fn has(self, corner: Corner) -> bool {
        (self.code_spec() as int / corner.weight()) % 2 == 1
    }

    /// The topology with inside and outside exchanged.
    #[verifier::opaque]
    pub open spec fn complement(self) -> Topology {
        Topology::of_code((15 - self.code_spec()) as u8).unwrap()
    }

    /// The crossing on `edge`: none where both ends lie on the same side,
    /// else the one that runs from the outside end to the inside end.
    pub open spec fn crossing_on(self, edge: Edge) -> Option<Crossing> {
        let (first, second) = edge.ends();
        if self.has(first) == self.has(second) {
            None
        } else if self.has(second) {
            Some(Crossing { from: first, to: second })
        } else {
            Some(Crossing { from: second, to: first })
        }
    }

    /// Whether two opposite corners lie inside and the other two outside.
    pub open spec fn is_saddle(self) -> bool {
        self == Topology::SaddleBottomLeftTopRight || self == Topology::SaddleTopLeftBottomRight
    }

    /// The crossings on the two edges that meet at `corner`, in the order
    /// of the edges.
    pub open spec fn around(self, corner: Corner) -> Seq<Crossing> {
        match corner {
            Corner::TopLeft => optional(self.crossing_on(Edge::Left)) + optional(
                self.crossing_on(Edge::Top),
            ),
            Corner::TopRight => optional(self.crossing_on(Edge::Top)) + optional(
                self.crossing_on(Edge::Right),
            ),
            Corner::BottomRight => optional(self.crossing_on(Edge::Bottom)) + optional(
                self.crossing_on(Edge::Right),
            ),
            Corner::BottomLeft => optional(self.crossing_on(Edge::Left)) + optional(
                self.crossing_on(Edge::Bottom),
            ),
        }
    }

    /// The rule that gives a cell its crossings: one for every edge whose
    /// ends lie on different sides. They come in the order of the edges:
    /// left, top, bottom, right. At a saddle they come corner by corner
    /// instead: first the two next to the inside corner on the left, then
    /// the two next to the inside corner on the right, so that each inside
    /// corner is cut off by a segment of its own.
    pub open spec fn segments_rule(self) -> Seq<Crossing> {
        if self.is_saddle() {
            if self.has(Corner::TopLeft) {
                self.around(Corner::TopLeft) + self.around(Corner::BottomRight)
            } else {
                self.around(Corner::BottomLeft) + self.around(Corner::TopRight)
            }
        } else {
            optional(self.crossing_on(Edge::Left)) + optional(self.crossing_on(Edge::Top))
                + optional(self.crossing_on(Edge::Bottom)) + optional(
                self.crossing_on(Edge::Right),
            )
        }
    }

    /// The crossings of a cell with this topology, case by case. They are
    /// those that `segments_rule` gives.
    pub open spec fn segments_spec(self) -> Seq<Crossing> {
        let tl = Corner::TopLeft;
        let tr = Corner::TopRight;
        let br = Corner::BottomRight;
        let bl = Corner::BottomLeft;
        match self {
            Topology::Outside | Topology::Inside => Seq::empty(),
            Topology::BottomLeft => seq![crossing(tl, bl), crossing(br, bl)],
            Topology::BottomRight => seq![crossing(bl, br), crossing(tr, br)],
            Topology::Bottom => seq![crossing(tl, bl), crossing(tr, br)],
            Topology::TopRight => seq![crossing(tl, tr), crossing(br, tr)],
            Topology::SaddleBottomLeftTopRight => seq![
                crossing(tl, bl),
                crossing(br, bl),
                crossing(tl, tr),
                crossing(br, tr),
            ],
            Topology::Right => seq![crossing(tl, tr), crossing(bl, br)],
            Topology::AllButTopLeft => seq![crossing(tl, bl), crossing(tl, tr)],
            Topology::TopLeft => seq![crossing(bl, tl), crossing(tr, tl)],
            Topology::Left => seq![crossing(tr, tl), crossing(br, bl)],
            Topology::SaddleTopLeftBottomRight => seq![
                crossing(bl, tl),
                crossing(tr, tl),
                crossing(bl, br),
                crossing(tr, br),
            ],
            Topology::AllButTopRight => seq![crossing(tr, tl), crossing(tr, br)],
            Topology::Top => seq![crossing(bl, tl), crossing(br, tr)],
            Topology::AllButBottomRight => seq![crossing(br, bl), crossing(br, tr)],
            Topology::AllButBottomLeft => seq![crossing(bl, tl), crossing(bl, br)],
        }
    }

    /// The point sequence of a cell with this topology: its crossings, or
    /// the sentinel alone where it has none.
    pub open spec fn points_spec(self) -> Seq<ContourPoint> {
        points_of(self.segments_spec())
    }

    /// The number that stands for this topology.
    pub fn code(self) -> (code: u8)
        ensures
            code == self.code_spec(),
            code <= 15,
    {
        match self {
            Topology::Outside => 0,
            Topology::BottomLeft => 1,
            Topology::BottomRight => 2,
            Topology::Bottom => 3,
            Topology::TopRight => 4,
            Topology::SaddleBottomLeftTopRight => 5,
            Topology::Right => 6,
            Topology::AllButTopLeft => 7,
            Topology::TopLeft => 8,
            Topology::Left => 9,
            Topology::SaddleTopLeftBottomRight => 10,
            Topology::AllButTopRight => 11,
            Topology::Top => 12,
            Topology::AllButBottomRight => 13,
            Topology::AllButBottomLeft => 14,
            Topology::Inside => 15,
        }
    }

    /// The topology that `code` stands for; `None` for a number above 15.
    pub fn from_code(code: u8) -> (topology: Option<Topology>)
        ensures
            topology == Topology::of_code(code),
            topology is Some <==> code <= 15,
            topology matches Some(t) ==> t.code_spec() == code,
    {
        match code {
            0 => Some(Topology::Outside),
            1 => Some(Topology::BottomLeft),
            2 => Some(Topology::BottomRight),
            3 => Some(Topology::Bottom),
            4 => Some(Topology::TopRight),
            5 => Some(Topology::SaddleBottomLeftTopRight),
            6 => Some(Topology::Right),
            7 => Some(Topology::AllButTopLeft),
            8 => Some(Topology::TopLeft),
            9 => Some(Topology::Left),
            10 => Some(Topology::SaddleTopLeftBottomRight),
            11 => Some(Topology::AllButTopRight),
            12 => Some(Topology::Top),
            13 => Some(Topology::AllButBottomRight),
            14 => Some(Topology::AllButBottomLeft),
            15 => Some(Topology::Inside),
            _ => None,
        }
    }

    /// Whether `corner` lies inside the contour.
    pub fn inside(self, corner: Corner) -> (inside: bool)
        ensures
            inside == self.has(corner),
    {
        let code: u8 = self.code();
        match corner {
            Corner::TopLeft => code / 8 % 2 == 1,
            Corner::TopRight => code / 4 % 2 == 1,
            Corner::BottomRight => code / 2 % 2 == 1,
            Corner::BottomLeft => code % 2 == 1,
        }
    }

    /// The crossings of a cell with this topology: none where all corners
    /// lie on one side, four at a saddle, one on every edge, else two. Each
    /// runs from the outside end of its edge to the inside end.
    ///
    /// The four crossings of a saddle make two separate segments, the first
    /// two and the last two. Each segment joins the two crossings next to
    /// one inside corner and so cuts that corner off; the two inside
    /// corners are never joined, whatever the neighbouring cells hold.
    pub fn segments(self) -> (segments: Vec<Crossing>)
        ensures
            segments@ == self.segments_spec(),
            segments@ == self.segments_rule(),
            segments.len() == if self == Topology::Outside || self == Topology::Inside {
                0int
            } else if self.is_saddle() {
                4int
            } else {
                2int
            },
            self.is_saddle() ==> {
                &&& segments[0].to == segments[1].to
                &&& segments[2].to == segments[3].to
                &&& segments[0].to != segments[2].to
                &&& self.has(segments[0].to)
                &&& self.has(segments[2].to)
            },
    {
        let tl = Corner::TopLeft;
        let tr = Corner::TopRight;
        let br = Corner::BottomRight;
        let bl = Corner::BottomLeft;
        let segments = match self {
            Topology::Outside | Topology::Inside => Vec::new(),
            Topology::BottomLeft => vec![
                Crossing { from: tl, to: bl },
                Crossing { from: br, to: bl },
            ],
            Topology::BottomRight => vec![
                Crossing { from: bl, to: br },
                Crossing { from: tr, to: br },
            ],
            Topology::Bottom => vec![Crossing { from: tl, to: bl }, Crossing { from: tr, to: br }],
            Topology::TopRight => vec![
                Crossing { from: tl, to: tr },
                Crossing { from: br, to: tr },
            ],
            Topology::SaddleBottomLeftTopRight => vec![
                Crossing { from: tl, to: bl },
                Crossing { from: br, to: bl },
                Crossing { from: tl, to: tr },
                Crossing { from: br, to: tr },
            ],
            Topology::Right => vec![Crossing { from: tl, to: tr }, Crossing { from: bl, to: br }],
            Topology::AllButTopLeft => vec![
                Crossing { from: tl, to: bl },
                Crossing { from: tl, to: tr },
            ],
            Topology::TopLeft => vec![Crossing { from: bl, to: tl }, Crossing { from: tr, to: tl }],
            Topology::Left => vec![Crossing { from: tr, to: tl }, Crossing { from: br, to: bl }],
            Topology::SaddleTopLeftBottomRight => vec![
                Crossing { from: bl, to: tl },
                Crossing { from: tr, to: tl },
                Crossing { from: bl, to: br },
                Crossing { from: tr, to: br },
            ],
            Topology::AllButTopRight => vec![
                Crossing { from: tr, to: tl },
                Crossing { from: tr, to: br },
            ],
            Topology::Top => vec![Crossing { from: bl, to: tl }, Crossing { from: br, to: tr }],
            Topology::AllButBottomRight => vec![
                Crossing { from: br, to: bl },
                Crossing { from: br, to: tr },
            ],
            Topology::AllButBottomLeft => vec![
                Crossing { from: bl, to: tl },
                Crossing { from: bl, to: br },
            ],
        };
        proof {
            lemma_segments_rule(self);
            assert(segments@ =~= self.segments_spec());
        }
        segments
    }

    /// The point sequence of a cell with this topology: the sentinel alone
    /// where the contour does not pass through the cell, else its crossings.
    pub fn points(self) -> (points: Vec<ContourPoint>)
        ensures
            points@ == self.points_spec(),
    {
        let segments = self.segments();
        let mut points: Vec<ContourPoint> = Vec::new();
        if segments.len() == 0 {
            points.push(ContourPoint::Sentinel);
            assert(points@ =~= self.points_spec());
            return points;
        }
        let mut k: usize = 0;
        while k < segments.len()
            invariant
                k <= segments.len(),
                points.len() == k,
                forall|m: int| 0 <= m < k ==> points[m] == ContourPoint::Crossing(segments[m]),
            decreases segments.len() - k,
        {
            points.push(ContourPoint::Crossing(segments[k]));
            k += 1;
        }
        assert(points@ =~= self.points_spec());
        points
    }
}

/// The crossing that runs from `from` to `to`.
pub open spec fn crossing(from: Corner, to: Corner) -> Crossing {
    Crossing { from, to }
}

/// The corners that lie inside, each as its weight in the code tells: the
/// top-left, the top-right, the bottom-right and the bottom-left one.
pub open spec fn inside_corners(topology: Topology) -> (bool, bool, bool, bool) {
    match topology {
        Topology::Outside => (false, false, false, false),
        Topology::BottomLeft => (false, false, false, true),
        Topology::BottomRight => (false, false, true, false),
        Topology::Bottom => (false, false, true, true),
        Topology::TopRight => (false, true, false, false),
        Topology::SaddleBottomLeftTopRight => (false, true, false, true),
        Topology::Right => (false, true, true, false),
        Topology::AllButTopLeft => (false, true, true, true),
        Topology::TopLeft => (true, false, false, false),
        Topology::Left => (true, false, false, true),
        Topology::SaddleTopLeftBottomRight => (true, false, true, false),
        Topology::AllButTopRight => (true, false, true, true),
        Topology::Top => (true, true, false, false),
        Topology::AllButBottomRight => (true, true, false, true),
        Topology::AllButBottomLeft => (true, true, true, false),
        Topology::Inside => (true, true, true, true),
    }
}

/// The name of a topology tells which corners lie inside.
pub proof fn lemma_inside_corners(topology: Topology)
    ensures
        topology.has(Corner::TopLeft) == inside_corners(topology).0,
        topology.has(Corner::TopRight) == inside_corners(topology).1,
        topology.has(Corner::BottomRight) == inside_corners(topology).2,
        topology.has(Corner::BottomLeft) == inside_corners(topology).3,
{
}

/// The sixteen cases are those that the rule gives: a cell has one crossing
/// for every edge whose ends lie on different sides, each running from the
/// outside end to the inside end, in the order of the edges or, at a
/// saddle, corner by corner.
pub proof fn lemma_segments_rule(topology: Topology)
    ensures
        topology.segments_spec() == topology.segments_rule(),
{
    lemma_inside_corners(topology);
    assert(topology.segments_spec() =~= topology.segments_rule());
}

/// The code of a cell from the flags of its four corners, each 0 (outside)
/// or 1 (inside).
pub fn topology_code(top_left: u8, top_right: u8, bottom_right: u8, bottom_left: u8) -> (code: u8)
    requires
        top_left <= 1,
        top_right <= 1,
        bottom_right <= 1,
        bottom_left <= 1,
    ensures
        code == pack(top_left as int, top_right as int, bottom_right as int, bottom_left as int),
        code <= 15,
        code == 0 <==> top_left == 0 && top_right == 0 && bottom_right == 0 && bottom_left == 0,
        code == 15 <==> top_left == 1 && top_right == 1 && bottom_right == 1 && bottom_left == 1,
{
    8 * top_left + 4 * top_right + 2 * bottom_right + bottom_left
}

/// The point sequence of a cell with the given code; empty for a number
/// above 15, which is the code of no cell.
pub fn cell_points(code: u8) -> (points: Vec<ContourPoint>)
    ensures
        points@ == cell_points_spec(code),
        code == 5 || code == 10 ==> cuts_two_corners(points@),
{
    match Topology::from_code(code) {
        Some(topology) => topology.points(),
        None => Vec::new(),
    }
}

} // verus!
