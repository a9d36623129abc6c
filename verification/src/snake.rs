//! The snake: an ordered body, head first, and a heading.

use crate::geometry::{Coordinate, Direction};
use std::collections::VecDeque;
use vstd::prelude::*;

verus! {

/// The body from head (front) to tail (back), and the current heading.
pub struct Snake {
    pub direction: Direction,
    pub body: VecDeque<Coordinate>,
}

/// Largest board side whose cells all have `u8` coordinates.
pub const MAX_BOARD_SIZE: usize = 256;

impl Snake {
    /// The body every game starts with: head at `(1, 0)`, tail at `(0, 0)`.
    pub open spec fn initial_body() -> Seq<Coordinate> {
        seq![Coordinate { x: 1, y: 0 }, Coordinate { x: 0, y: 0 }]
    }

    /// The head, for a body that has one.
    pub open spec fn head(self) -> Coordinate
        recommends
            self.body@.len() > 0,
    {
        self.body@[0]
    }

    /// A two-segment snake in the bottom-left corner, heading left.
    pub fn new(board_size: usize) -> (snake: Snake)
        requires
            2 <= board_size <= MAX_BOARD_SIZE,
        ensures
            snake.direction == Direction::LEFT,
            snake.body@ == Snake::initial_body(),
    {
        assert(board_size * board_size <= 65536) by (nonlinear_arith)
            requires
                board_size <= 256,
        ;
        let mut body: VecDeque<Coordinate> = VecDeque::with_capacity(
            board_size * board_size + 3,
        );
        body.push_back(Coordinate { x: 1, y: 0 });
        body.push_back(Coordinate { x: 0, y: 0 });
        assert(body@ =~= Snake::initial_body());
        Snake { direction: Direction::LEFT, body }
    }

    pub fn get_head(&self) -> (head: &Coordinate)
        requires
            self.body@.len() > 0,
        ensures
            *head == self.head(),
    {
        &self.body[0]
    }

    /// Drops the last segment.
    pub fn rm_tail(&mut self)
        requires
            old(self).body@.len() > 0,
        ensures
            final(self).body@ == old(self).body@.drop_last(),
            final(self).direction == old(self).direction,
    {
        let _ = self.body.pop_back();
    }

    /// Whether some segment of the body lies on `cell`.
    pub fn occupies(&self, cell: Coordinate) -> (found: bool)
        ensures
            found == self.body@.contains(cell),
    {
        let len: usize = self.body.len();
        let mut i: usize = 0;
        while i < len
            invariant
                len == self.body@.len(),
                0 <= i <= len,
                forall|k: int| 0 <= k < i ==> self.body@[k] != cell,
            decreases len - i,
        {
            if self.body[i] == cell {
                return true;
            }
            i += 1;
        }
        false
    }
}

} // verus!
