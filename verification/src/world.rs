//! The game world: the grid, the snake on it, the reward cell and the status
//! of the game, stepped one tick at a time.
//!
//! The world draws no random numbers. After a spawn, and after each reward
//! that the snake eats while cells are free, the world is without a reward:
//! the driver then offers candidate cells, and the world takes the first
//! one that is free.

use vstd::prelude::*;
use crate::grid::Direction;
use crate::grid::next_index;
use crate::grid::next_index_of;
use crate::grid::on_grid;
use crate::lemmas::lemma_growth_leaves_free_cell;
use crate::lemmas::lemma_next_head_on_grid;
use crate::lemmas::lemma_spawn_wf;
use crate::lemmas::lemma_tick_wf;
use crate::snake::Snake;
use crate::snake::SnakeCell;
use crate::snake::SnakeView;
use crate::snake::indices;
use crate::snake::spawn_body;

verus! {

/// The status of a game that has been started.
#[derive(Clone, Copy, PartialEq, Eq, Structural, Debug)]
pub enum GameStates {
    Win,
    Lose,
    Played,
}

/// The game world.
pub struct World {
    width: usize,
    size: usize,
    reward_cell: Option<usize>,
    snake: Snake,
    next_cell: Option<SnakeCell>,
    status: Option<GameStates>,
}

/// What a world is: the width of the grid and its number of cells, the cell
/// of the reward if one is on the grid, the snake, the cell queued for the
/// head's next move if there is one, and the status, absent until the game is
/// started.
pub ghost struct WorldView {
    pub width: usize,
    pub size: usize,
    pub reward_cell: Option<usize>,
    pub snake: SnakeView,
    pub next_cell: Option<usize>,
    pub status: Option<GameStates>,
}

/// The text that tells a player the status of the game.
pub open spec fn status_info(status: Option<GameStates>) -> Seq<char> {
    match status {
        Some(GameStates::Lose) => "You Lose!"@,
        Some(GameStates::Win) => "You Win!"@,
        Some(GameStates::Played) => "You're Playing!"@,
        None => "None!"@,
    }
}

/// The cell among `max` cells that a draw of `candidate` settles on, with
/// the snake on the cells of `body`: the candidate itself where it is below
/// `max` and not in `body`, else none.
pub open spec fn reward_choice(max: usize, body: Seq<usize>, candidate: usize) -> Option<usize> {
    if candidate < max && !body.contains(candidate) {
        Some(candidate)
    } else {
        None
    }
}

impl WorldView {
    /// The world right after a spawn on a grid of width `width` with the
    /// snake's head on `snake_idx`: a snake of three cells heading down, no
    /// reward yet, and the game not started.
    pub open spec fn spawn(width: usize, snake_idx: usize) -> WorldView {
        WorldView {
            width: width,
            size: (width * width) as usize,
            reward_cell: None,
            snake: SnakeView { body: spawn_body(snake_idx, 3), direction: Direction::Down },
            next_cell: None,
            status: None,
        }
    }

    /// The conditions that hold of every world: the grid is square, the
    /// snake has at least two cells and no more than the grid, every cell in
    /// use is on the grid, the reward lies on no cell of the snake, a won
    /// game has a snake as long as the grid and no reward, and until the game
    /// is lost no two cells of the snake lie on one index, the tail left
    /// aside (a tail that has just grown lies on the cell before it).
    pub open spec fn wf(self) -> bool {
        &&& self.width > 0
        &&& self.size == self.width * self.width
        &&& 2 <= self.snake.body.len() <= self.size
        &&& self.snake.on_grid(self.width as int)
        &&& self.status != Some(GameStates::Lose) ==> self.snake.body.drop_last().no_duplicates()
        &&& match self.reward_cell {
            Some(r) => r < self.size && !self.snake.occupies(r),
            None => true,
        }
        &&& match self.next_cell {
            Some(c) => c < self.size,
            None => true,
        }
        &&& self.status == Some(GameStates::Win) ==> self.reward_cell.is_none()
            && self.snake.body.len() == self.size
    }

    /// Whether some cell of the grid is free of the snake.
    pub open spec fn has_free_cell(self) -> bool {
        exists|c: usize| c < self.size && !self.snake.occupies(c)
    }

    /// The world after `start_game`: a game that was not started is being
    /// played; any other game is as it was.
    pub open spec fn start(self) -> WorldView {
        WorldView {
            status: if self.status.is_none() {
                Some(GameStates::Played)
            } else {
                self.status
            },
            ..self
        }
    }

    /// The world after a request to head in `direction`.
    pub open spec fn change_direction(self, direction: Direction) -> WorldView {
        WorldView { snake: self.snake.turn(direction, self.width as int), ..self }
    }

    /// The neighbour of the head in `direction`.
    pub open spec fn neighbour(self, direction: Direction) -> usize {
        next_index_of(self.snake.head() as int, direction, self.width as int) as usize
    }

    /// The cell that the head moves to on the next tick: the queued cell if
    /// there is one, else the neighbour of the head in the snake's direction.
    pub open spec fn next_head(self) -> usize {
        match self.next_cell {
            Some(c) => c,
            None => self.neighbour(self.snake.direction),
        }
    }

    /// The snake as the next tick moves it, before it grows.
    pub open spec fn moved(self) -> SnakeView {
        self.snake.advance(self.next_head())
    }

    /// Whether the next tick ends the game as lost: the game is being played
    /// and the move puts the head on a cell of the body.
    pub open spec fn collides(self) -> bool {
        self.status == Some(GameStates::Played) && self.moved().hits_itself()
    }

    /// Whether the next tick puts the head on the reward without a
    /// collision.
    pub open spec fn eats(self) -> bool {
        self.status == Some(GameStates::Played) && !self.moved().hits_itself() && self.reward_cell
            == Some(self.next_head())
    }

    /// Whether the next tick makes the snake one cell longer: it eats, and
    /// the snake is shorter than the grid.
    pub open spec fn grows(self) -> bool {
        self.eats() && self.snake.body.len() < self.size
    }

    /// The world after one tick. A game that is not being played stays as it
    /// is. Else the snake moves and the queued cell is used up; a collision
    /// ends the game as lost, and nothing more happens. Else, if the head is
    /// on the reward, the reward leaves the grid, and either the snake grows
    /// or, if it is as long as the grid, the game is won.
    pub open spec fn tick(self) -> WorldView {
        if self.status != Some(GameStates::Played) {
            self
        } else if self.collides() {
            WorldView {
                snake: self.moved(),
                next_cell: None,
                status: Some(GameStates::Lose),
                ..self
            }
        } else if self.grows() {
            WorldView { snake: self.moved().grow(), next_cell: None, reward_cell: None, ..self }
        } else if self.eats() {
            WorldView {
                snake: self.moved(),
                next_cell: None,
                reward_cell: None,
                status: Some(GameStates::Win),
                ..self
            }
        } else {
            WorldView { snake: self.moved(), next_cell: None, ..self }
        }
    }

    /// Whether the world waits for a reward: none is on the grid, and the
    /// game is not won.
    pub open spec fn needs_reward(self) -> bool {
        self.reward_cell.is_none() && self.status != Some(GameStates::Win)
    }

    /// Whether the world takes `candidate` as its reward: it waits for one,
    /// and the candidate is a cell of the grid that the snake is not on.
    pub open spec fn accepts_reward(self, candidate: usize) -> bool {
        self.needs_reward() && reward_choice(self.size, self.snake.body, candidate).is_some()
    }

    /// The world after `candidate` was offered as the reward.
    pub open spec fn place_reward(self, candidate: usize) -> WorldView {
        if self.accepts_reward(candidate) {
            WorldView { reward_cell: Some(candidate), ..self }
        } else {
            self
        }
    }
}

impl View for World {
    type V = WorldView;

    closed spec fn view(&self) -> WorldView {
        WorldView {
            width: self.width,
            size: self.size,
            reward_cell: self.reward_cell,
            snake: self.snake@,
            next_cell: match self.next_cell {
                Some(cell) => Some(cell.0),
                None => None,
            },
            status: self.status,
        }
    }
}

impl World {
    /// A world on a grid of width `width`, with a snake of three cells whose
    /// head is on `snake_idx` and whose other cells lie on the two indices
    /// below it. The game is not started, and the world waits for its first
    /// reward.
    pub fn new(width: usize, snake_idx: usize) -> (world: World)
        requires
            width * width <= usize::MAX,
            2 <= snake_idx < width * width,
        ensures
            world@ == WorldView::spawn(width, snake_idx),
            world@.wf(),
            world@.needs_reward(),
            world@.has_free_cell(),
    {
        proof {
            lemma_spawn_wf(width, snake_idx);
        }
        let size: usize = width * width;
        let snake = Snake::new(snake_idx, 3);
        World { width, size, reward_cell: None, snake, next_cell: None, status: None }
    }

    /// Starts a game that was not started. A game that is being played, or
    /// that is won or lost, stays as it is.
    pub fn start_game(&mut self)
        requires
            old(self)@.wf(),
        ensures
            final(self)@ == old(self)@.start(),
            final(self)@.wf(),
    {
        if self.status.is_none() {
            self.status = Some(GameStates::Played);
        }
    }

    /// The status of the game, absent until the game is started.
    pub fn get_game_status(&self) -> (status: Option<GameStates>)
        ensures
            status == self@.status,
    {
        self.status
    }

    /// The text that tells a player the status of the game.
    pub fn get_game_status_info(&self) -> (info: String)
        ensures
            info@ == status_info(self@.status),
    {
        match self.status {
            Some(GameStates::Lose) => "You Lose!".to_owned(),
            Some(GameStates::Win) => "You Win!".to_owned(),
            Some(GameStates::Played) => "You're Playing!".to_owned(),
            None => "None!".to_owned(),
        }
    }

    /// The width of the grid.
    pub fn get_width(&self) -> (width: usize)
        ensures
            width == self@.width,
    {
        self.width
    }

    /// The index of the snake's head.
    pub fn snake_head_idx(&self) -> (index: usize)
        requires
            self@.wf(),
        ensures
            index == self@.snake.head(),
    {
        self.snake.head()
    }

    /// Asks the snake to head in `direction` from the next tick on. The
    /// request is dropped, and nothing changes, where a step that way would
    /// put the head on the cell right behind it.
    pub fn change_snake_direction(&mut self, direction: Direction)
        requires
            old(self)@.wf(),
        ensures
            final(self)@ == old(self)@.change_direction(direction),
            final(self)@.wf(),
    {
        assert(on_grid(self@.snake.body[0] as int, self.width as int));
        self.snake.change_direction(direction, self.width);
    }

    /// Steps the game by one tick. Nothing happens unless the game is being
    /// played. The head moves to the queued cell, or else to its neighbour in
    /// the snake's direction, and the body follows. A head on the body loses
    /// the game. Else a head on the reward takes it off the grid: the snake
    /// grows by one cell and the world waits for a new reward, or, with a
    /// snake as long as the grid, the game is won.
    pub fn update(&mut self)
        requires
            old(self)@.wf(),
        ensures
            final(self)@ == old(self)@.tick(),
            final(self)@.wf(),
            old(self)@.grows() ==> final(self)@.needs_reward() && final(self)@.has_free_cell(),
    {
        proof {
            lemma_tick_wf(self@);
            if self@.grows() {
                lemma_growth_leaves_free_cell(self@);
            }
        }
        match self.status {
            Some(GameStates::Played) => {},
            _ => {
                return;
            },
        }
        let new_head: usize = match self.next_cell {
            Some(cell) => cell.0,
            None => {
                let direction = self.snake.direction();
                self.gen_next_snake_cell(&direction).0
            },
        };
        proof {
            lemma_next_head_on_grid(self@);
        }
        self.next_cell = None;
        self.snake.advance(new_head);
        if self.snake.hits_itself() {
            self.status = Some(GameStates::Lose);
            return;
        }
        let on_reward: bool = match self.reward_cell {
            Some(reward) => reward == new_head,
            None => false,
        };
        if on_reward {
            self.reward_cell = None;
            if self.snake.len() < self.size {
                self.snake.grow();
            } else {
                self.status = Some(GameStates::Win);
            }
        }
    }

    /// The neighbour of the snake's head in `direction`.
    pub fn gen_next_snake_cell(&self, direction: &Direction) -> (cell: SnakeCell)
        requires
            self@.wf(),
        ensures
            cell.0 == self@.neighbour(*direction),
            cell.0 < self@.size,
    {
        assert(on_grid(self@.snake.body[0] as int, self.width as int));
        SnakeCell(next_index(self.snake.head(), *direction, self.width))
    }

    /// Settles a draw of `candidate` among `max` cells: the candidate is the
    /// reward cell where it is below `max` and no cell of `snake_body` lies
    /// on it. Where the result is `None` the caller draws again.
    pub fn gen_reward_cell(
        max: usize,
        snake_body: &[SnakeCell],
        candidate: usize,
    ) -> (cell: Option<usize>)
        ensures
            cell == reward_choice(max, indices(snake_body@), candidate),
    {
        if candidate >= max {
            return None;
        }
        let ghost body = indices(snake_body@);
        let mut i: usize = 0;
        while i < snake_body.len()
            invariant
                i <= snake_body@.len(),
                body == indices(snake_body@),
                forall|k: int| 0 <= k < i ==> body[k] != candidate,
            decreases snake_body@.len() - i,
        {
            if snake_body[i].0 == candidate {
                assert(body[i as int] == candidate);
                return None;
            }
            i += 1;
        }
        Some(candidate)
    }

    /// Whether the world waits for a reward: none is on the grid, and the
    /// game is not won.
    pub fn needs_reward(&self) -> (due: bool)
        ensures
            due == self@.needs_reward(),
    {
        let won: bool = match self.status {
            Some(GameStates::Win) => true,
            _ => false,
        };
        self.reward_cell.is_none() && !won
    }

    /// Offers `candidate` as the cell of the reward. The world takes it, and
    /// returns `true`, where it waits for a reward and the candidate is a
    /// cell of the grid that the snake is not on; else nothing changes.
    pub fn place_reward(&mut self, candidate: usize) -> (placed: bool)
        requires
            old(self)@.wf(),
        ensures
            placed == old(self)@.accepts_reward(candidate),
            final(self)@ == old(self)@.place_reward(candidate),
            final(self)@.wf(),
    {
        if !self.needs_reward() {
            return false;
        }
        match World::gen_reward_cell(self.size, self.snake.cells(), candidate) {
            Some(cell) => {
                self.reward_cell = Some(cell);
                true
            },
            None => false,
        }
    }

    /// The cell of the reward, if one is on the grid.
    pub fn get_reward_cell(&self) -> (cell: Option<usize>)
        ensures
            cell == self@.reward_cell,
    {
        self.reward_cell
    }

    /// The cells of the snake, head first.
    pub fn snake_cells(&self) -> (cells: &[SnakeCell])
        ensures
            indices(cells@) == self@.snake.body,
    {
        self.snake.cells()
    }

    /// The number of cells of the snake.
    pub fn get_snake_len(&self) -> (len: usize)
        ensures
            len == self@.snake.body.len(),
    {
        self.snake.len()
    }
}

} // verus!
