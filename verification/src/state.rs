//! The mathematical state of a game and its transition, with what holds of
//! every tick.

use crate::food::is_free;
use crate::geometry::{Coordinate, Direction};
use crate::snake::MAX_BOARD_SIZE;
use vstd::prelude::*;

verus! {

/// How a tick ended.
#[derive(Copy, Clone, Debug, PartialEq, Eq, Structural)]
pub enum StepOutcome {
    /// The snake moved; the game goes on.
    Continue,
    /// The move would leave the board: the game is lost.
    OutOfBounds,
    /// The move would run into the snake's own body: the game is lost.
    SelfCollision,
    /// The snake ate the food that fills the board: the game is won.
    Won,
}

/// The mathematical state of a game.
pub struct GameView {
    pub board_size: int,
    pub direction: Direction,
    /// The snake's body, head first.
    pub body: Seq<Coordinate>,
    pub food: Coordinate,
    pub freeze_time_ms: u64,
}

impl GameView {
    /// A board that `u8` coordinates cover, and on it a snake that has a head,
    /// stays on the board, never crosses itself and leaves a cell free.
    pub open spec fn snake_ok(self) -> bool {
        &&& 2 <= self.board_size <= MAX_BOARD_SIZE
        &&& 1 <= self.body.len() < self.board_size * self.board_size
        &&& self.body.no_duplicates()
        &&& forall|i: int|
            0 <= i < self.body.len() ==> (#[trigger] self.body[i]).in_board(self.board_size)
    }

    /// A valid state: a valid snake, and the food on a free cell.
    pub open spec fn wf(self) -> bool {
        &&& self.snake_ok()
        &&& is_free(self.board_size, self.body, self.food)
    }

    pub open spec fn head(self) -> Coordinate {
        self.body[0]
    }

    /// Column that the head moves to at the next tick; it may lie off the board.
    pub open spec fn next_x(self) -> int {
        self.head().x + self.direction.dx()
    }

    /// Row that the head moves to at the next tick; it may lie off the board.
    pub open spec fn next_y(self) -> int {
        self.head().y + self.direction.dy()
    }

    pub open spec fn next_on_board(self) -> bool {
        0 <= self.next_x() < self.board_size && 0 <= self.next_y() < self.board_size
    }

    /// The cell that the head moves to, where that cell is on the board.
    pub open spec fn next(self) -> Coordinate
        recommends
            self.next_on_board(),
    {
        Coordinate { x: self.next_x() as u8, y: self.next_y() as u8 }
    }

    /// The next cell holds a segment of the body, the tail included.
    pub open spec fn hits_body(self) -> bool {
        self.body.contains(self.next())
    }

    pub open spec fn eats(self) -> bool {
        self.next() == self.food
    }

    /// One more segment would fill the board.
    pub open spec fn fills_board(self) -> bool {
        self.body.len() + 1 >= self.board_size * self.board_size
    }

    /// How the next tick ends. The tests come in this order: the board's
    /// edge, the body as it lies before the move, then the food.
    pub open spec fn outcome(self) -> StepOutcome {
        if !self.next_on_board() {
            StepOutcome::OutOfBounds
        } else if self.hits_body() {
            StepOutcome::SelfCollision
        } else if self.eats() && self.fills_board() {
            StepOutcome::Won
        } else {
            StepOutcome::Continue
        }
    }

    /// The body after a move without food: the head advances, the tail leaves.
    pub open spec fn slid_body(self) -> Seq<Coordinate> {
        seq![self.next()] + self.body.drop_last()
    }

    /// The body after a move onto the food: the head advances, the tail stays.
    pub open spec fn grown_body(self) -> Seq<Coordinate> {
        seq![self.next()] + self.body
    }

    /// The state with another body.
    pub open spec fn with_body(self, body: Seq<Coordinate>) -> GameView {
        GameView { body, ..self }
    }

    /// The state with the food elsewhere.
    pub open spec fn with_food(self, food: Coordinate) -> GameView {
        GameView { food, ..self }
    }

    /// The state with another debounce interval.
    pub open spec fn with_freeze_time(self, freeze_time_ms: u64) -> GameView {
        GameView { freeze_time_ms, ..self }
    }

    /// The state with another heading.
    pub open spec fn with_direction(self, direction: Direction) -> GameView {
        GameView { direction, ..self }
    }

    /// The marker shown on `cell`: `F` on the food, `H` on the head, `S` on the
    /// rest of the body, `*` on an empty cell.
    pub open spec fn marker(self, cell: Coordinate) -> char {
        if cell == self.food {
            'F'
        } else if cell == self.head() {
            'H'
        } else if self.body.contains(cell) {
            'S'
        } else {
            '*'
        }
    }

    /// The cell drawn in row `row`, column `col` of a board of side `size`:
    /// rows run from the largest `y` down, columns by increasing `x`.
    pub open spec fn cell_shown_at(size: int, row: int, col: int) -> Coordinate {
        Coordinate { x: col as u8, y: (size - 1 - row) as u8 }
    }

    /// `rows` is the picture of this state: one row for each `y`, one marker
    /// for each cell.
    pub open spec fn shown_as(self, rows: Seq<Seq<char>>) -> bool {
        &&& rows.len() == self.board_size
        &&& forall|r: int|
            0 <= r < self.board_size ==> (#[trigger] rows[r]).len() == self.board_size
        &&& forall|r: int, c: int|
            0 <= r < self.board_size && 0 <= c < self.board_size ==> (#[trigger] rows[r][c])
                == self.marker(GameView::cell_shown_at(self.board_size, r, c))
    }

    /// What a tick leaves, but for the new food cell after a meal: nothing
    /// changes unless the game goes on; then the body slides or grows.
    pub open spec fn stepped(self, after: GameView) -> bool {
        if self.outcome() != StepOutcome::Continue {
            after == self
        } else if self.eats() {
            &&& after == self.with_body(self.grown_body()).with_food(after.food)
            &&& is_free(self.board_size, self.grown_body(), after.food)
        } else {
            after == self.with_body(self.slid_body())
        }
    }
}

/// A new head on a free cell keeps the body on the board and free of
/// repeats, and the body then holds the new head and what it held before.
pub proof fn lemma_prepend_keeps_snake(body: Seq<Coordinate>, head: Coordinate, board_size: int)
    requires
        body.no_duplicates(),
        forall|i: int| 0 <= i < body.len() ==> (#[trigger] body[i]).in_board(board_size),
        is_free(board_size, body, head),
    ensures
        (seq![head] + body).no_duplicates(),
        forall|i: int|
            0 <= i < body.len() + 1 ==> (#[trigger] (seq![head] + body)[i]).in_board(board_size),
        forall|cell: Coordinate|
            (seq![head] + body).contains(cell) <==> (cell == head || body.contains(cell)),
{
    let grown = seq![head] + body;
    assert forall|i: int, j: int|
        0 <= i < grown.len() && 0 <= j < grown.len() && i != j implies grown[i] != grown[j] by {
        if i > 0 {
            assert(grown[i] == body[i - 1]);
        }
        if j > 0 {
            assert(grown[j] == body[j - 1]);
        }
    }
    assert forall|i: int| 0 <= i < body.len() + 1 implies (#[trigger] grown[i]).in_board(
        board_size,
    ) by {
        if i > 0 {
            assert(grown[i] == body[i - 1]);
        }
    }
    assert forall|cell: Coordinate| grown.contains(cell) <==> (cell == head || body.contains(
        cell,
    )) by {
        if grown.contains(cell) {
            let k = choose|k: int| 0 <= k < grown.len() && grown[k] == cell;
            if k > 0 {
                assert(body[k - 1] == cell);
            }
        }
        if cell == head {
            assert(grown[0] == cell);
        }
        if body.contains(cell) {
            let k = choose|k: int| 0 <= k < body.len() && body[k] == cell;
            assert(grown[k + 1] == cell);
        }
    }
}


/// A tick from a valid state leaves a valid state: the snake stays on the
/// board and free of repeats, and the food lies on a cell off the snake.
pub proof fn lemma_step_keeps_valid(before: GameView, after: GameView)
    requires
        before.wf(),
        before.stepped(after),
    ensures
        after.wf(),
        !after.body.contains(after.food),
{
    if before.outcome() == StepOutcome::Continue {
        let next = before.next();
        if before.eats() {
            lemma_prepend_keeps_snake(before.body, next, before.board_size);
        } else {
            let kept = before.body.drop_last();
            assert forall|cell: Coordinate| kept.contains(cell) implies before.body.contains(
                cell,
            ) by {
                let k = choose|k: int| 0 <= k < kept.len() && kept[k] == cell;
                assert(before.body[k] == cell);
            }
            lemma_prepend_keeps_snake(kept, next, before.board_size);
        }
    }
}

/// A tick without a meal keeps the snake's length, and so does one that ends
/// the game; a meal that does not end the game adds exactly one segment.
pub proof fn lemma_step_length(before: GameView, after: GameView)
    requires
        before.wf(),
        before.stepped(after),
    ensures
        before.outcome() == StepOutcome::Continue && before.eats() ==> after.body.len()
            == before.body.len() + 1,
        before.outcome() != StepOutcome::Continue || !before.eats() ==> after.body.len()
            == before.body.len(),
{
}

/// A move whose target column or row lies off the board, on either side,
/// ends the game as out of bounds and changes nothing.
pub proof fn lemma_leaving_board_changes_nothing(before: GameView, after: GameView)
    requires
        before.stepped(after),
        before.next_x() < 0 || before.next_x() >= before.board_size || before.next_y() < 0
            || before.next_y() >= before.board_size,
    ensures
        before.outcome() == StepOutcome::OutOfBounds,
        after == before,
{
}

/// A move onto a cell that a segment of the body covers before the move, the
/// tail's cell included, ends the game as a collision and changes nothing.
pub proof fn lemma_hitting_body_changes_nothing(before: GameView, after: GameView, segment: int)
    requires
        before.wf(),
        before.stepped(after),
        0 <= segment < before.body.len(),
        before.body[segment].x == before.next_x(),
        before.body[segment].y == before.next_y(),
    ensures
        before.outcome() == StepOutcome::SelfCollision,
        after == before,
{
    assert(before.body[segment].in_board(before.board_size));
    assert(before.body[segment] == before.next());
}

/// The meal that would fill the board wins the game and leaves the snake as
/// it was, one segment short of the whole board.
pub proof fn lemma_last_meal_wins(before: GameView, after: GameView)
    requires
        before.stepped(after),
        before.next_on_board(),
        !before.hits_body(),
        before.eats(),
        before.body.len() + 1 >= before.board_size * before.board_size,
    ensures
        before.outcome() == StepOutcome::Won,
        after == before,
{
}

/// A game that has ended stays as it is: a further tick changes nothing and
/// ends the same way.
pub proof fn lemma_ended_game_stays(before: GameView, after: GameView, later: GameView)
    requires
        before.stepped(after),
        before.outcome() != StepOutcome::Continue,
        after.stepped(later),
    ensures
        after.outcome() == before.outcome(),
        later == before,
{
}

} // verus!
