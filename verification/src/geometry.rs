//! Grid positions and the four headings.

use vstd::prelude::*;

verus! {

/// A cell of the square grid.
#[derive(Copy, Clone, Debug, PartialEq, Eq, PartialOrd, Structural)]
pub struct Coordinate {
    pub x: u8,
    pub y: u8,
}

/// One of the four headings. `UP` increases `y`, `RIGHT` increases `x`.
#[derive(Copy, Clone, Debug, PartialEq, Eq, PartialOrd, Structural)]
pub enum Direction {
    UP,
    DOWN,
    LEFT,
    RIGHT,
}

impl Coordinate {
    /// Whether the cell lies on a board of side `size`.
    pub open spec fn in_board(self, size: int) -> bool {
        self.x < size && self.y < size
    }

    /// Row-major enumeration order: by `x` first, then by `y`.
    pub open spec fn precedes(self, other: Coordinate) -> bool {
        self.x < other.x || (self.x == other.x && self.y < other.y)
    }
}

impl Direction {
    /// The heading that points the other way.
    pub open spec fn opposite(self) -> Direction {
        match self {
            Direction::UP => Direction::DOWN,
            Direction::DOWN => Direction::UP,
            Direction::LEFT => Direction::RIGHT,
            Direction::RIGHT => Direction::LEFT,
        }
    }

    /// Change of `x` made by one move along this heading.
    pub open spec fn dx(self) -> int {
        match self {
            Direction::LEFT => -1,
            Direction::RIGHT => 1,
            _ => 0,
        }
    }

    /// Change of `y` made by one move along this heading.
    pub open spec fn dy(self) -> int {
        match self {
            Direction::DOWN => -1,
            Direction::UP => 1,
            _ => 0,
        }
    }

    pub fn get_opposite(self) -> (r: Direction)
        ensures
            r == self.opposite(),
            r != self,
            r.opposite() == self,
    {
        match self {
            Direction::UP => Direction::DOWN,
            Direction::DOWN => Direction::UP,
            Direction::LEFT => Direction::RIGHT,
            Direction::RIGHT => Direction::LEFT,
        }
    }
}

/// Turning round twice gives the heading back, and no heading is its own
/// opposite.
pub proof fn lemma_opposite_involution(d: Direction)
    ensures
        d.opposite().opposite() == d,
        d.opposite() != d,
{
}

} // verus!
