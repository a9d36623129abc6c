//! The game: a board, the snake on it and one food cell, advanced tick by
//! tick.

use crate::food::{choose_cell, free_cells, is_free, lemma_free_cell_exists};
use crate::geometry::{Coordinate, Direction};
use crate::input::{key_action, Key, KeyAction};
use crate::snake::{Snake, MAX_BOARD_SIZE};
use crate::state::{lemma_step_keeps_valid, GameView, StepOutcome};
use vstd::prelude::*;

verus! {

/// A game session.
pub struct Game {
    board_size: usize,
    snake: Snake,
    food_pos: Coordinate,
    /// Shortest time between two key presses that both count, in milliseconds.
    pub freeze_time_ms: u64,
}

impl View for Game {
    type V = GameView;

    closed spec fn view(&self) -> GameView {
        GameView {
            board_size: self.board_size as int,
            direction: self.snake.direction,
            body: self.snake.body@,
            food: self.food_pos,
            freeze_time_ms: self.freeze_time_ms,
        }
    }
}

impl Game {
    /// Debounce interval of a new game, in milliseconds.
    pub const DEFAULT_FREEZE_TIME_MS: u64 = 200;

    /// A new session: the initial snake, and the food on a random free cell.
    pub fn new(board_size: usize) -> (game: Game)
        requires
            2 <= board_size <= MAX_BOARD_SIZE,
        ensures
            game@.wf(),
            game@.board_size == board_size,
            game@.direction == Direction::LEFT,
            game@.body == Snake::initial_body(),
            game@.freeze_time_ms == Game::DEFAULT_FREEZE_TIME_MS,
            game@.food.in_board(board_size as int),
            !game@.body.contains(game@.food),
    {
        let mut game = Game {
            board_size,
            snake: Snake::new(board_size),
            food_pos: Coordinate { x: 0, y: 1 },
            freeze_time_ms: Game::DEFAULT_FREEZE_TIME_MS,
        };
        proof {
            assert(2 * 2 <= board_size * board_size) by (nonlinear_arith)
                requires
                    2 <= board_size,
            ;
        }
        game.update_food_coord();
        game
    }

    pub fn get_board_size(&self) -> (size: usize)
        ensures
            size == self@.board_size,
    {
        self.board_size
    }

    pub fn get_snake(&self) -> (snake: &Snake)
        ensures
            snake.body@ == self@.body,
            snake.direction == self@.direction,
    {
        &self.snake
    }

    pub fn get_food_pos(&self) -> (food: Coordinate)
        ensures
            food == self@.food,
    {
        self.food_pos
    }

    pub fn get_current_dir(&self) -> (direction: Direction)
        ensures
            direction == self@.direction,
    {
        self.snake.direction
    }

    pub fn get_freeze_time_ms(&self) -> (freeze_time_ms: u64)
        ensures
            freeze_time_ms == self@.freeze_time_ms,
    {
        self.freeze_time_ms
    }

    /// Sets the debounce interval, in milliseconds.
    pub fn set_freeze_time_ms(&mut self, freeze_time_ms: u64)
        ensures
            final(self)@ == old(self)@.with_freeze_time(freeze_time_ms),
    {
        self.freeze_time_ms = freeze_time_ms;
    }

    /// Sets the heading, whatever it was.
    pub fn change_snake_dir(&mut self, new_dir: Direction)
        ensures
            final(self)@ == old(self)@.with_direction(new_dir),
    {
        self.snake.direction = new_dir;
    }

    /// Puts the food on `cell` if that cell is free, and says whether it did.
    pub fn set_food(&mut self, cell: Coordinate) -> (placed: bool)
        ensures
            placed == is_free(old(self)@.board_size, old(self)@.body, cell),
            placed ==> final(self)@ == old(self)@.with_food(cell),
            !placed ==> final(self)@ == old(self)@,
    {
        if (cell.x as usize) < self.board_size && (cell.y as usize) < self.board_size
            && !self.snake.occupies(cell) {
            self.food_pos = cell;
            true
        } else {
            false
        }
    }

    /// Moves the food to a free cell picked at random.
    pub fn update_food_coord(&mut self)
        requires
            1 <= old(self)@.board_size <= MAX_BOARD_SIZE,
            old(self)@.body.len() < old(self)@.board_size * old(self)@.board_size,
        ensures
            final(self)@ == old(self)@.with_food(final(self)@.food),
            is_free(old(self)@.board_size, old(self)@.body, final(self)@.food),
    {
        let cells = free_cells(self.board_size, &self.snake);
        proof {
            lemma_free_cell_exists(self@.board_size, self@.body);
            let free = choose|cell: Coordinate| is_free(self@.board_size, self@.body, cell);
            assert(cells@.contains(free));
        }
        let pick = choose_cell(&cells);
        let placed = self.set_food(pick.unwrap());
        assert(placed);
    }

    /// Advances the game by one tick.
    pub fn step(&mut self) -> (outcome: StepOutcome)
        requires
            old(self)@.wf(),
        ensures
            outcome == old(self)@.outcome(),
            old(self)@.stepped(final(self)@),
            final(self)@.wf(),
    {
        let head = *self.snake.get_head();
        let size = self.board_size;
        assert(size * size <= 65536) by (nonlinear_arith)
            requires
                size <= 256,
        ;
        let next = match self.snake.direction {
            Direction::UP => {
                if (head.y as usize) + 1 < size {
                    Coordinate { x: head.x, y: head.y + 1 }
                } else {
                    return StepOutcome::OutOfBounds;
                }
            },
            Direction::DOWN => {
                if head.y >= 1 {
                    Coordinate { x: head.x, y: head.y - 1 }
                } else {
                    return StepOutcome::OutOfBounds;
                }
            },
            Direction::LEFT => {
                if head.x >= 1 {
                    Coordinate { x: head.x - 1, y: head.y }
                } else {
                    return StepOutcome::OutOfBounds;
                }
            },
            Direction::RIGHT => {
                if (head.x as usize) + 1 < size {
                    Coordinate { x: head.x + 1, y: head.y }
                } else {
                    return StepOutcome::OutOfBounds;
                }
            },
        };
        assert(old(self)@.next_on_board() && next == old(self)@.next());
        if self.snake.occupies(next) {
            return StepOutcome::SelfCollision;
        }
        if next == self.food_pos {
            if self.snake.body.len() + 1 >= size * size {
                return StepOutcome::Won;
            }
            self.snake.body.push_front(next);
            self.update_food_coord();
        } else {
            self.snake.rm_tail();
            self.snake.body.push_front(next);
        }
        proof {
            lemma_step_keeps_valid(old(self)@, self@);
        }
        StepOutcome::Continue
    }

    /// One round of play for the heading that the player asks for. A heading
    /// opposite to the current one is refused: nothing changes and no tick
    /// passes. Any other heading is taken and the game advances by one tick.
    pub fn advance(&mut self, new_dir: Direction) -> (result: Option<StepOutcome>)
        requires
            old(self)@.wf(),
        ensures
            new_dir.opposite() == old(self)@.direction ==> result is None && final(self)@ == old(
                self,
            )@,
            new_dir.opposite() != old(self)@.direction ==> result == Some(
                old(self)@.with_direction(new_dir).outcome(),
            ) && old(self)@.with_direction(new_dir).stepped(final(self)@),
            final(self)@.wf(),
    {
        if new_dir.get_opposite() == self.get_current_dir() {
            None
        } else {
            self.change_snake_dir(new_dir);
            Some(self.step())
        }
    }

    /// Decides what a key press does, `elapsed_ms` whole milliseconds after
    /// the last press that counted.
    pub fn get_user_key(&self, key: Key, ctrl: bool, elapsed_ms: u128) -> (action: KeyAction)
        ensures
            action == key_action(self@.freeze_time_ms, key, ctrl, elapsed_ms),
    {
        if elapsed_ms < self.freeze_time_ms as u128 {
            return KeyAction::Debounced;
        }
        match key {
            Key::Char('w') => KeyAction::Turn(Direction::UP),
            Key::Char('a') => KeyAction::Turn(Direction::LEFT),
            Key::Char('s') => KeyAction::Turn(Direction::DOWN),
            Key::Char('d') => KeyAction::Turn(Direction::RIGHT),
            Key::Char('c') => if ctrl {
                KeyAction::Interrupt
            } else {
                KeyAction::Ignored
            },
            _ => KeyAction::Ignored,
        }
    }

    /// The marker shown on `cell`.
    pub fn marker_at(&self, cell: Coordinate) -> (marker: char)
        requires
            self@.body.len() > 0,
        ensures
            marker == self@.marker(cell),
    {
        if cell == self.food_pos {
            'F'
        } else if cell == *self.snake.get_head() {
            'H'
        } else if self.snake.occupies(cell) {
            'S'
        } else {
            '*'
        }
    }

    /// The board as rows of markers, the top row (the largest `y`) first and
    /// each row by increasing `x`.
    pub fn display_state(&self) -> (board: Vec<Vec<char>>)
        requires
            self@.wf(),
        ensures
            self@.shown_as(board.deep_view()),
    {
        let size = self.board_size;
        let mut board: Vec<Vec<char>> = Vec::new();
        let mut r: usize = 0;
        while r < size
            invariant
                self@.wf(),
                size == self@.board_size,
                0 <= r <= size,
                board@.len() == r,
                forall|i: int| 0 <= i < r ==> (#[trigger] board@[i])@.len() == size,
                forall|i: int, x: int|
                    0 <= i < r && 0 <= x < size ==> (#[trigger] board@[i]@[x]) == self@.marker(
                        GameView::cell_shown_at(size as int, i, x),
                    ),
            decreases size - r,
        {
            let mut row: Vec<char> = Vec::new();
            let mut x: usize = 0;
            while x < size
                invariant
                    self@.wf(),
                    size == self@.board_size,
                    0 <= r < size,
                    0 <= x <= size,
                    row@.len() == x,
                    forall|k: int|
                        0 <= k < x ==> (#[trigger] row@[k]) == self@.marker(
                            GameView::cell_shown_at(size as int, r as int, k),
                        ),
                decreases size - x,
            {
                let cell = Coordinate { x: x as u8, y: (size - 1 - r) as u8 };
                row.push(self.marker_at(cell));
                x += 1;
            }
            board.push(row);
            r += 1;
        }
        proof {
            let shown = board.deep_view();
            assert(shown.len() == size);
            assert forall|i: int| 0 <= i < size implies (#[trigger] shown[i]).len() == size by {
                assert(shown[i] == board@[i]@);
            }
            assert forall|i: int, x: int| 0 <= i < size && 0 <= x < size implies (
            #[trigger] shown[i][x]) == self@.marker(GameView::cell_shown_at(size as int, i, x)) by {
                assert(shown[i] == board@[i]@);
            }
        }
        board
    }
}

} // verus!
