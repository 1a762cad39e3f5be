//! The snake: an ordered body of cells, head first, and a direction of
//! travel.

use vstd::prelude::*;
use crate::grid::Direction;
use crate::grid::next_index;
use crate::grid::next_index_of;
use crate::grid::on_grid;

verus! {

/// A cell of the grid that belongs to the snake. Two snake cells are equal
/// when their indices are.
#[derive(Clone, Copy, PartialEq, Eq, Structural, Debug)]
pub struct SnakeCell(pub usize);

/// The snake. Its body is never empty: the head is the first cell, the tail
/// the last.
pub struct Snake {
    body: Vec<SnakeCell>,
    direction: Direction,
}

/// What a snake is: the indices of its cells from head to tail, and where it
/// is heading.
pub ghost struct SnakeView {
    pub body: Seq<usize>,
    pub direction: Direction,
}

impl SnakeView {
    /// A snake has a head.
    pub open spec fn wf(self) -> bool {
        self.body.len() > 0
    }

    /// The index of the head.
    pub open spec fn head(self) -> usize {
        self.body[0]
    }

    /// Whether some cell of the body lies on `index`.
    pub open spec fn occupies(self, index: usize) -> bool {
        self.body.contains(index)
    }

    /// Whether the head lies on a cell that the rest of the body holds too.
    pub open spec fn hits_itself(self) -> bool {
        self.body.skip(1).contains(self.body[0])
    }

    /// Whether every cell of the body is a cell of the grid of width `width`.
    pub open spec fn on_grid(self, width: int) -> bool {
        forall|i: int| 0 <= i < self.body.len() ==> on_grid(#[trigger] self.body[i] as int, width)
    }

    /// The snake after one move: the head is on `new_head`, and each other
    /// cell is where the cell before it was.
    pub open spec fn advance(self, new_head: usize) -> SnakeView {
        SnakeView {
            body: Seq::new(
                self.body.len(),
                |i: int| if i == 0 { new_head } else { self.body[i - 1] },
            ),
            direction: self.direction,
        }
    }

    /// The snake with one more cell at its tail, lying where the cell before
    /// the old tail lies.
    pub open spec fn grow(self) -> SnakeView {
        SnakeView {
            body: self.body.push(self.body[self.body.len() - 2]),
            direction: self.direction,
        }
    }

    /// Whether a step in `requested` would put the head on the cell right
    /// behind it.
    pub open spec fn reverses(self, requested: Direction, width: int) -> bool {
        self.body.len() >= 2 && next_index_of(self.head() as int, requested, width)
            == self.body[1]
    }

    /// The snake after a request to head in `requested`: the request is
    /// dropped where it would reverse the snake into its own neck.
    pub open spec fn turn(self, requested: Direction, width: int) -> SnakeView {
        SnakeView {
            body: self.body,
            direction: if self.reverses(requested, width) {
                self.direction
            } else {
                requested
            },
        }
    }
}

/// The indices of a run of snake cells, in order.
pub open spec fn indices(cells: Seq<SnakeCell>) -> Seq<usize> {
    Seq::new(cells.len(), |i: int| cells[i].0)
}

/// The body of a new snake of `len` cells with its head on `spawn_idx`: each
/// cell lies one index below the cell before it.
pub open spec fn spawn_body(spawn_idx: usize, len: usize) -> Seq<usize> {
    Seq::new(len as nat, |i: int| (spawn_idx - i) as usize)
}

impl View for Snake {
    type V = SnakeView;

    closed spec fn view(&self) -> SnakeView {
        SnakeView {
            body: indices(self.body@),
            direction: self.direction,
        }
    }
}

impl Snake {
    /// A snake of `size` cells on the indices `spawn_idx`, `spawn_idx - 1`
    /// and so on, heading down.
    pub fn new(spawn_idx: usize, size: usize) -> (snake: Snake)
        requires
            1 <= size <= spawn_idx + 1,
        ensures
            snake@.body == spawn_body(spawn_idx, size),
            snake@.direction == Direction::Down,
            snake@.wf(),
    {
        let mut body: Vec<SnakeCell> = Vec::new();
        let mut i: usize = 0;
        while i < size
            invariant
                i <= size <= spawn_idx + 1,
                body@.len() == i,
                forall|k: int| 0 <= k < i ==> (#[trigger] body@[k]).0 == spawn_idx - k,
            decreases size - i,
        {
            body.push(SnakeCell(spawn_idx - i));
            i += 1;
        }
        let snake = Snake { body, direction: Direction::Down };
        assert(snake@.body =~= spawn_body(spawn_idx, size));
        snake
    }

    /// The number of cells of the body.
    pub fn len(&self) -> (n: usize)
        ensures
            n == self@.body.len(),
    {
        self.body.len()
    }

    /// The index of the head.
    pub fn head(&self) -> (index: usize)
        requires
            self@.wf(),
        ensures
            index == self@.head(),
    {
        self.body[0].0
    }

    /// The direction of travel.
    pub fn direction(&self) -> (direction: Direction)
        ensures
            direction == self@.direction,
    {
        self.direction
    }

    /// The cells of the body, head first.
    pub fn cells(&self) -> (cells: &[SnakeCell])
        ensures
            indices(cells@) == self@.body,
    {
        self.body.as_slice()
    }

    /// The index of the cell at place `i` of the body, counted from the head.
    pub fn cell(&self, i: usize) -> (index: usize)
        requires
            i < self@.body.len(),
        ensures
            index == self@.body[i as int],
    {
        self.body[i].0
    }

    /// Whether the head lies on a cell that the rest of the body holds too.
    pub fn hits_itself(&self) -> (hit: bool)
        requires
            self@.wf(),
        ensures
            hit == self@.hits_itself(),
    {
        let head: usize = self.body[0].0;
        let ghost rest = self@.body.skip(1);
        let mut i: usize = 1;
        while i < self.body.len()
            invariant
                1 <= i <= self.body@.len(),
                rest == self@.body.skip(1),
                head == self@.body[0],
                forall|k: int| 0 <= k < i - 1 ==> rest[k] != head,
            decreases self.body@.len() - i,
        {
            if self.body[i].0 == head {
                assert(rest[i - 1] == head);
                return true;
            }
            i += 1;
        }
        false
    }

    /// Moves the snake by one cell: the head goes to `new_head`, and each
    /// other cell to where the cell before it was.
    pub fn advance(&mut self, new_head: usize)
        requires
            old(self)@.wf(),
        ensures
            final(self)@ == old(self)@.advance(new_head),
    {
        let len: usize = self.body.len();
        let mut i: usize = len - 1;
        while i > 0
            invariant
                i < len,
                self.body@.len() == len,
                self.direction == old(self).direction,
                forall|k: int| 0 <= k <= i ==> self.body@[k] == old(self).body@[k],
                forall|k: int| i < k < len ==> self.body@[k] == old(self).body@[k - 1],
            decreases i,
        {
            let before: SnakeCell = self.body[i - 1];
            self.body.set(i, before);
            i -= 1;
        }
        self.body.set(0, SnakeCell(new_head));
        assert(self@.body =~= old(self)@.advance(new_head).body);
    }

    /// Adds one cell at the tail, lying where the cell before the old tail
    /// lies.
    pub fn grow(&mut self)
        requires
            old(self)@.body.len() >= 2,
        ensures
            final(self)@ == old(self)@.grow(),
    {
        let len: usize = self.body.len();
        let cell: SnakeCell = self.body[len - 2];
        self.body.push(cell);
        assert(self@.body =~= old(self)@.grow().body);
    }

    /// Asks the snake to head in `requested` on a grid of width `width`. The
    /// request is dropped where a step that way would put the head on the
    /// cell right behind it; a snake of one cell takes any direction.
    pub fn change_direction(&mut self, requested: Direction, width: usize)
        requires
            old(self)@.wf(),
            width > 0,
            width * width <= usize::MAX,
            on_grid(old(self)@.head() as int, width as int),
        ensures
            final(self)@ == old(self)@.turn(requested, width as int),
    {
        let next: usize = next_index(self.body[0].0, requested, width);
        if self.body.len() >= 2 && self.body[1].0 == next {
            return;
        }
        self.direction = requested;
        assert(self@.body =~= old(self)@.body);
    }
}

} // verus!
