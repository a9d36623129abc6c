//! Where food can go: the free cells of a board, and the random pick among
//! them.

use crate::geometry::Coordinate;
use crate::snake::{Snake, MAX_BOARD_SIZE};
use rand::seq::SliceRandom;
use vstd::prelude::*;

verus! {

/// A cell of the board that no segment of `body` lies on.
pub open spec fn is_free(board_size: int, body: Seq<Coordinate>, cell: Coordinate) -> bool {
    cell.in_board(board_size) && !body.contains(cell)
}

/// The position of a board cell in a numbering of all `size * size` cells.
pub open spec fn cell_number(size: int, cell: Coordinate) -> int {
    cell.x * size + cell.y
}

/// A body shorter than the number of cells leaves at least one cell free.
pub proof fn lemma_free_cell_exists(board_size: int, body: Seq<Coordinate>)
    requires
        1 <= board_size <= MAX_BOARD_SIZE,
        body.len() < board_size * board_size,
    ensures
        exists|cell: Coordinate| is_free(board_size, body, cell),
{
    let n = board_size;
    if forall|cell: Coordinate| !is_free(n, body, cell) {
        let numbers = body.map_values(|c: Coordinate| cell_number(n, c));
        let all = vstd::set_lib::set_int_range(0, n * n);
        assert forall|i: int| all.contains(i) implies numbers.to_set().contains(i) by {
            let q = i / n;
            let r = i % n;
            assert(0 <= r < n && 0 <= q < n && q * n + r == i) by (nonlinear_arith)
                requires
                    0 <= i < n * n,
                    n >= 1,
                    q == i / n,
                    r == i % n,
            ;
            let cell = Coordinate { x: q as u8, y: r as u8 };
            assert(!is_free(n, body, cell));
            assert(body.contains(cell));
            let k = choose|k: int| 0 <= k < body.len() && body[k] == cell;
            assert(numbers[k] == i);
            assert(numbers.contains(i));
        }
        assert(all.subset_of(numbers.to_set()));
        vstd::seq_lib::seq_to_set_is_finite(numbers);
        vstd::set_lib::lemma_len_subset(all, numbers.to_set());
        vstd::set_lib::lemma_int_range(0, n * n);
        numbers.lemma_cardinality_of_set();
        assert(n * n <= body.len());
    }
}

/// The free cells of the board, each once, in row-major order.
pub fn free_cells(board_size: usize, snake: &Snake) -> (cells: Vec<Coordinate>)
    requires
        board_size <= MAX_BOARD_SIZE,
    ensures
        forall|cell: Coordinate|
            cells@.contains(cell) <==> is_free(board_size as int, snake.body@, cell),
        forall|i: int, j: int| 0 <= i < j < cells@.len() ==> cells@[i].precedes(cells@[j]),
{
    let mut cells: Vec<Coordinate> = Vec::new();
    let mut x: usize = 0;
    while x < board_size
        invariant
            board_size <= MAX_BOARD_SIZE,
            0 <= x <= board_size,
            forall|cell: Coordinate|
                cells@.contains(cell) <==> (is_free(board_size as int, snake.body@, cell)
                    && cell.x < x),
            forall|i: int, j: int| 0 <= i < j < cells@.len() ==> cells@[i].precedes(cells@[j]),
        decreases board_size - x,
    {
        let mut y: usize = 0;
        while y < board_size
            invariant
                board_size <= MAX_BOARD_SIZE,
                0 <= x < board_size,
                0 <= y <= board_size,
                forall|cell: Coordinate|
                    cells@.contains(cell) <==> (is_free(board_size as int, snake.body@, cell) && (
                    cell.x < x || (cell.x == x && cell.y < y))),
                forall|i: int, j: int|
                    0 <= i < j < cells@.len() ==> cells@[i].precedes(cells@[j]),
            decreases board_size - y,
        {
            let cell = Coordinate { x: x as u8, y: y as u8 };
            let ghost before = cells@;
            let free = !snake.occupies(cell);
            if free {
                proof {
                    assert forall|i: int| 0 <= i < before.len() implies before[i].precedes(
                        cell,
                    ) by {
                        assert(before.contains(before[i]));
                    }
                }
                cells.push(cell);
            }
            proof {
                assert forall|other: Coordinate|
                    cells@.contains(other) <==> (is_free(board_size as int, snake.body@, other) && (
                    other.x < x || (other.x == x && other.y < y + 1))) by {
                    if other.x == x && other.y == y {
                        assert(other == cell);
                    }
                    if free {
                        vstd::seq_lib::lemma_seq_contains_after_push(before, cell, other);
                    }
                }
            }
            y += 1;
        }
        x += 1;
    }
    cells
}

/// Picks one of `cells` at random with `rand`'s `SliceRandom::choose`, drawing
/// from the thread-local generator `rand::thread_rng`. The pick is `None`
/// exactly for an empty list and is otherwise one of the listed cells; which
/// one is left open.
#[verifier::external_body]
pub(crate) fn choose_cell(cells: &Vec<Coordinate>) -> (pick: Option<Coordinate>)
    ensures
        pick is None <==> cells@.len() == 0,
        pick is Some ==> cells@.contains(pick->0),
{
    cells.choose(&mut rand::thread_rng()).cloned()
}

} // verus!
