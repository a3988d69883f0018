//! The unit cell of the grid: its four corner nodes, its four edges and the
//! oriented edge crossings out of which contour segments are made.
//!
//! A cell `(i, j)` has its corners at the grid nodes `(i, j)`, `(i, j + 1)`,
//! `(i + 1, j + 1)` and `(i + 1, j)`. Rows are drawn downwards and columns to
//! the right, so these are the top-left, top-right, bottom-right and
//! bottom-left corner in that order.

use vstd::prelude::*;

verus! {

/// One of the four corner nodes of a cell.
#[derive(Clone, Copy, Debug, PartialEq, Eq, Structural)]
pub enum Corner {
    /// Node `(i, j)`.
    TopLeft,
    /// Node `(i, j + 1)`.
    TopRight,
    /// Node `(i + 1, j + 1)`.
    BottomRight,
    /// Node `(i + 1, j)`.
    BottomLeft,
}

/// The direction along which a crossing is interpolated.
#[derive(Clone, Copy, Debug, PartialEq, Eq, Structural)]
pub enum Axis {
    /// The crossing lies on a horizontal edge: its `y` is that of the edge's
    /// row and its `x` is interpolated between two neighbouring columns.
    X,
    /// The crossing lies on a vertical edge: its `x` is that of the edge's
    /// column and its `y` is interpolated between two neighbouring rows.
    Y,
}

/// One of the four edges of a cell, listed from left to right, and top
/// before bottom in between. Away from the saddles the crossings of a cell
/// come in this order.
#[derive(Clone, Copy, Debug, PartialEq, Eq, Structural)]
pub enum Edge {
    /// Between the top-left and the bottom-left corner.
    Left,
    /// Between the top-left and the top-right corner.
    Top,
    /// Between the bottom-left and the bottom-right corner.
    Bottom,
    /// Between the top-right and the bottom-right corner.
    Right,
}

/// The point at which the contour crosses one edge of a cell. The edge runs
/// from a corner outside the contour to a corner inside it, and the point is
/// found by interpolating from `from` towards `to`.
#[derive(Clone, Copy, Debug, PartialEq, Eq, Structural)]
pub struct Crossing {
    /// The end of the edge that lies outside.
    pub from: Corner,
    /// The end of the edge that lies inside.
    pub to: Corner,
}

/// One entry of the point sequence of a cell.
#[derive(Clone, Copy, Debug, PartialEq, Eq, Structural)]
pub enum ContourPoint {
    /// The fixed pair `(0, 0)` that stands for "no crossing in this cell".
    Sentinel,
    /// A point of the contour on an edge of the cell.
    Crossing(Crossing),
}

impl Corner {
    /// The weight with which the corner's flag enters a topology code.
    pub open spec fn weight(self) -> int {
        match self {
            Corner::TopLeft => 8,
            Corner::TopRight => 4,
            Corner::BottomRight => 2,
            Corner::BottomLeft => 1,
        }
    }

    /// How many rows below the cell's own row the corner lies.
    pub open spec fn row_offset(self) -> int {
        match self {
            Corner::TopLeft | Corner::TopRight => 0,
            Corner::BottomRight | Corner::BottomLeft => 1,
        }
    }

    /// How many columns right of the cell's own column the corner lies.
    pub open spec fn col_offset(self) -> int {
        match self {
            Corner::TopLeft | Corner::BottomLeft => 0,
            Corner::TopRight | Corner::BottomRight => 1,
        }
    }

    /// The grid node at which this corner of cell `(i, j)` lies.
    pub fn node(self, i: usize, j: usize) -> (node: (usize, usize))
        requires
            i < usize::MAX,
            j < usize::MAX,
        ensures
            node.0 == i + self.row_offset(),
            node.1 == j + self.col_offset(),
    {
        match self {
            Corner::TopLeft => (i, j),
            Corner::TopRight => (i, j + 1),
            Corner::BottomRight => (i + 1, j + 1),
            Corner::BottomLeft => (i + 1, j),
        }
    }
}

impl Edge {
    /// The two corners that the edge joins: the upper one first on a
    /// vertical edge, the left one first on a horizontal edge.
    pub open spec fn ends(self) -> (Corner, Corner) {
        match self {
            Edge::Left => (Corner::TopLeft, Corner::BottomLeft),
            Edge::Top => (Corner::TopLeft, Corner::TopRight),
            Edge::Bottom => (Corner::BottomLeft, Corner::BottomRight),
            Edge::Right => (Corner::TopRight, Corner::BottomRight),
        }
    }

    /// The direction in which the edge runs.
    pub open spec fn axis(self) -> Axis {
        match self {
            Edge::Left | Edge::Right => Axis::Y,
            Edge::Top | Edge::Bottom => Axis::X,
        }
    }
}

impl Crossing {
    /// The edge on which the crossing lies, if its two corners are the two
    /// ends of an edge of the cell.
    pub open spec fn edge_spec(self) -> Option<Edge> {
        if self.joins(Edge::Left) {
            Some(Edge::Left)
        } else if self.joins(Edge::Top) {
            Some(Edge::Top)
        } else if self.joins(Edge::Bottom) {
            Some(Edge::Bottom)
        } else if self.joins(Edge::Right) {
            Some(Edge::Right)
        } else {
            None
        }
    }

    /// Whether the crossing runs along `edge`, in either direction.
    pub open spec fn joins(self, edge: Edge) -> bool {
        (self.from, self.to) == edge.ends() || (self.to, self.from) == edge.ends()
    }

    /// The same point of the same edge, approached from the other end.
    pub open spec fn reversed(self) -> Crossing {
        Crossing { from: self.to, to: self.from }
    }

    /// The edge on which the crossing lies; `None` for a pair of corners
    /// that is a diagonal of the cell or one corner twice.
    pub fn edge(self) -> (edge: Option<Edge>)
        ensures
            edge == self.edge_spec(),
    {
        match (self.from, self.to) {
            (Corner::TopLeft, Corner::BottomLeft) => Some(Edge::Left),
            (Corner::BottomLeft, Corner::TopLeft) => Some(Edge::Left),
            (Corner::TopLeft, Corner::TopRight) => Some(Edge::Top),
            (Corner::TopRight, Corner::TopLeft) => Some(Edge::Top),
            (Corner::BottomLeft, Corner::BottomRight) => Some(Edge::Bottom),
            (Corner::BottomRight, Corner::BottomLeft) => Some(Edge::Bottom),
            (Corner::TopRight, Corner::BottomRight) => Some(Edge::Right),
            (Corner::BottomRight, Corner::TopRight) => Some(Edge::Right),
            _ => None,
        }
    }

    /// The direction along which the crossing is interpolated: `Y` where its
    /// two corners share a column, `X` where they share a row.
    pub fn axis(self) -> (axis: Option<Axis>)
        ensures
            axis == match self.edge_spec() {
                Some(edge) => Some(edge.axis()),
                None => None,
            },
            axis == Some(Axis::Y) <==> (self.from.col_offset() == self.to.col_offset()
                && self.from.row_offset() != self.to.row_offset()),
            axis == Some(Axis::X) <==> (self.from.row_offset() == self.to.row_offset()
                && self.from.col_offset() != self.to.col_offset()),
    {
        match self.edge() {
            Some(Edge::Left) | Some(Edge::Right) => Some(Axis::Y),
            Some(Edge::Top) | Some(Edge::Bottom) => Some(Axis::X),
            None => None,
        }
    }
}

} // verus!
