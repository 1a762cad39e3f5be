//! What holds of every world, stated over the views of the snake and of the
//! world, and proved.

use vstd::prelude::*;
use crate::grid::Direction;
use crate::grid::next_index_of;
use crate::grid::on_grid;
use crate::grid::lemma_next_index_on_grid;
use crate::grid::lemma_step_leaves_cell;
use crate::snake::SnakeView;
use crate::world::GameStates;
use crate::world::WorldView;

verus! {

/// Fewer cells than the grid has cannot cover it: a body shorter than `size`
/// leaves a cell below `size` free.
pub proof fn lemma_short_body_leaves_free_cell(body: Seq<usize>, size: usize)
    requires
        body.len() < size,
    ensures
        exists|c: usize| c < size && !body.contains(c),
    decreases size,
{
    let last: usize = (size - 1) as usize;
    if !body.contains(last) {
        assert(last < size && !body.contains(last));
    } else {
        let j = choose|j: int| 0 <= j < body.len() && body[j] == last;
        let rest = Seq::new(
            (body.len() - 1) as nat,
            |i: int| if i < j { body[i] } else { body[i + 1] },
        );
        lemma_short_body_leaves_free_cell(rest, last);
        let c = choose|c: usize| c < last && !rest.contains(c);
        assert forall|i: int| 0 <= i < body.len() implies body[i] != c by {
            if i < j {
                assert(rest[i] == body[i]);
            } else if i > j {
                assert(rest[i - 1] == body[i]);
            }
        }
        assert(c < size && !body.contains(c));
    }
}

/// A world right after a spawn meets the conditions of every world, and has
/// a free cell for the reward.
pub proof fn lemma_spawn_wf(width: usize, snake_idx: usize)
    requires
        width * width <= usize::MAX,
        2 <= snake_idx < width * width,
    ensures
        WorldView::spawn(width, snake_idx).wf(),
        WorldView::spawn(width, snake_idx).has_free_cell(),
{
    let w = WorldView::spawn(width, snake_idx);
    assert(width > 0) by (nonlinear_arith)
        requires
            width * width > 0,
    ;
    assert(width * width != 3) by (nonlinear_arith)
        requires
            width > 0,
    ;
    lemma_short_body_leaves_free_cell(w.snake.body, w.size);
    let c = choose|c: usize| c < w.size && !w.snake.body.contains(c);
    assert(c < w.size && !w.snake.occupies(c));
}

/// The snake after a move lies on the grid if it did before and the new head
/// does.
pub proof fn lemma_advance_on_grid(snake: SnakeView, new_head: usize, width: int)
    requires
        snake.on_grid(width),
        on_grid(new_head as int, width),
    ensures
        snake.advance(new_head).on_grid(width),
{
    let moved = snake.advance(new_head);
    assert forall|i: int| 0 <= i < moved.body.len() implies on_grid(
        #[trigger] moved.body[i] as int,
        width,
    ) by {
        if i > 0 {
            assert(moved.body[i] == snake.body[i - 1]);
        }
    }
}

/// After a move the snake is on its new head and on the cells that it held
/// before, the old tail left out, and on no other.
pub proof fn lemma_advance_occupies(snake: SnakeView, new_head: usize, index: usize)
    requires
        snake.wf(),
    ensures
        snake.advance(new_head).occupies(index) <==> index == new_head
            || snake.body.drop_last().contains(index),
        snake.advance(new_head).hits_itself() <==> snake.body.drop_last().contains(new_head),
{
    let moved = snake.advance(new_head);
    let kept = snake.body.drop_last();
    assert(moved.body[0] == new_head);
    assert(moved.body.skip(1) =~= kept);
    if moved.body.contains(index) {
        let i = choose|i: int| 0 <= i < moved.body.len() && moved.body[i] == index;
        if i > 0 {
            assert(kept[i - 1] == index);
        }
    }
    if kept.contains(index) {
        let i = choose|i: int| 0 <= i < kept.len() && kept[i] == index;
        assert(moved.body[i + 1] == index);
    }
}

/// A move that does not put the head on the body leaves no two cells of the
/// snake on one index, if no two were before, the old tail left aside.
pub proof fn lemma_advance_distinct(snake: SnakeView, new_head: usize)
    requires
        snake.wf(),
        snake.body.drop_last().no_duplicates(),
        !snake.advance(new_head).hits_itself(),
    ensures
        snake.advance(new_head).body.no_duplicates(),
{
    let moved = snake.advance(new_head);
    let kept = snake.body.drop_last();
    assert(moved.body.skip(1) =~= kept);
    assert forall|i: int, j: int|
        0 <= i < moved.body.len() && 0 <= j < moved.body.len() && i != j implies moved.body[i]
        != moved.body[j] by {
        if i == 0 {
            assert(kept[j - 1] == moved.body[j]);
        } else if j == 0 {
            assert(kept[i - 1] == moved.body[i]);
        } else {
            assert(kept[i - 1] == moved.body[i]);
            assert(kept[j - 1] == moved.body[j]);
        }
    }
}

/// The cell that the head moves to on the next tick is a cell of the grid.
pub proof fn lemma_next_head_on_grid(w: WorldView)
    requires
        w.wf(),
    ensures
        on_grid(w.next_head() as int, w.width as int),
        w.next_cell.is_none() ==> w.next_head() == next_index_of(
            w.snake.head() as int,
            w.snake.direction,
            w.width as int,
        ),
{
    assert(on_grid(w.snake.body[0] as int, w.width as int));
    lemma_next_index_on_grid(w.snake.head() as int, w.snake.direction, w.width as int);
}

/// A tick keeps the conditions of every world.
pub proof fn lemma_tick_wf(w: WorldView)
    requires
        w.wf(),
    ensures
        w.tick().wf(),
{
    if w.status == Some(GameStates::Played) {
        let head = w.next_head();
        let moved = w.moved();
        lemma_next_head_on_grid(w);
        lemma_advance_on_grid(w.snake, head, w.width as int);
        assert(moved.body.len() == w.snake.body.len());
        if let Some(r) = w.reward_cell {
            lemma_advance_occupies(w.snake, head, r);
            lemma_advance_occupies(w.snake, head, head);
            if w.snake.body.drop_last().contains(r) {
                let i = choose|i: int|
                    0 <= i < w.snake.body.drop_last().len() && w.snake.body.drop_last()[i] == r;
                assert(w.snake.body[i] == r);
            }
        }
        if !w.collides() {
            lemma_advance_distinct(w.snake, head);
            assert(moved.body.drop_last().no_duplicates());
            assert(moved.grow().body.drop_last() =~= moved.body);
        }
        if w.grows() {
            let grown = moved.grow();
            assert forall|i: int| 0 <= i < grown.body.len() implies on_grid(
                #[trigger] grown.body[i] as int,
                w.width as int,
            ) by {
                if i < moved.body.len() {
                    assert(grown.body[i] == moved.body[i]);
                } else {
                    assert(grown.body[i] == moved.body[moved.body.len() - 2]);
                }
            }
        }
    }
}

/// Where a tick makes the snake grow, it leaves a cell free for the next
/// reward.
pub proof fn lemma_growth_leaves_free_cell(w: WorldView)
    requires
        w.wf(),
        w.grows(),
    ensures
        w.tick().has_free_cell(),
{
    let moved = w.moved();
    let grown = moved.grow();
    lemma_short_body_leaves_free_cell(moved.body, w.size);
    let c = choose|c: usize| c < w.size && !moved.body.contains(c);
    assert forall|i: int| 0 <= i < grown.body.len() implies grown.body[i] != c by {
        if i < moved.body.len() {
            assert(grown.body[i] == moved.body[i]);
        } else {
            assert(grown.body[i] == moved.body[moved.body.len() - 2]);
        }
    }
    assert(c < w.tick().size && !w.tick().snake.occupies(c));
}

/// A tick never makes the snake shorter. It makes the snake longer, by one
/// cell, on the ticks of a game being played that put the head on the reward
/// while the snake is shorter than the grid, and on no other.
pub proof fn lemma_tick_length(w: WorldView)
    requires
        w.wf(),
    ensures
        w.tick().snake.body.len() >= w.snake.body.len(),
        w.tick().snake.body.len() == w.snake.body.len() + 1 <==> w.grows(),
        !w.grows() ==> w.tick().snake.body.len() == w.snake.body.len(),
        w.grows() <==> w.status == Some(GameStates::Played) && w.reward_cell == Some(
            w.next_head(),
        ) && w.snake.body.len() < w.size,
{
    if w.status == Some(GameStates::Played) && w.reward_cell == Some(w.next_head()) {
        lemma_reward_is_no_collision(w);
    }
}

/// A head that moves onto the reward does not collide: the reward lies on no
/// cell of the snake.
pub proof fn lemma_reward_is_no_collision(w: WorldView)
    requires
        w.wf(),
        w.reward_cell == Some(w.next_head()),
    ensures
        !w.moved().hits_itself(),
{
    let head = w.next_head();
    lemma_advance_occupies(w.snake, head, head);
    let kept = w.snake.body.drop_last();
    if kept.contains(head) {
        let i = choose|i: int| 0 <= i < kept.len() && kept[i] == head;
        assert(w.snake.body[i] == head);
    }
}

/// A tick that ends the game as lost has put the head on a cell that the
/// snake held before the move, the tail left out, and only such a tick of a
/// game being played ends it so.
pub proof fn lemma_lost_on_body(w: WorldView)
    requires
        w.wf(),
        w.status == Some(GameStates::Played),
    ensures
        w.tick().status == Some(GameStates::Lose) <==> w.snake.body.drop_last().contains(
            w.tick().snake.head(),
        ),
        w.tick().snake.head() == w.next_head(),
{
    let head = w.next_head();
    lemma_advance_occupies(w.snake, head, head);
    assert(w.moved().body[0] == head);
    if w.grows() {
        assert(w.moved().grow().body[0] == w.moved().body[0]);
    }
}

/// A tick that ends the game as lost has put the head on a cell that lay
/// behind the head before the move. This holds where the head moved to a
/// neighbour of its cell, or to a queued cell other than its own.
pub proof fn lemma_lost_behind_head(w: WorldView)
    requires
        w.wf(),
        w.status == Some(GameStates::Played),
        w.next_cell != Some(w.snake.head()),
        w.tick().status == Some(GameStates::Lose),
    ensures
        exists|k: int|
            1 <= k < w.snake.body.len() && w.snake.body[k] == w.tick().snake.head(),
        w.snake.body.skip(1).contains(w.tick().snake.head()),
{
    lemma_lost_on_body(w);
    lemma_next_head_on_grid(w);
    let head = w.tick().snake.head();
    let kept = w.snake.body.drop_last();
    let i = choose|i: int| 0 <= i < kept.len() && kept[i] == head;
    assert(w.snake.body[i] == head);
    if w.next_cell.is_none() {
        assert(on_grid(w.snake.body[0] as int, w.width as int));
        assert(w.width >= 2) by (nonlinear_arith)
            requires
                w.width * w.width >= 2,
                w.width > 0,
        ;
        lemma_step_leaves_cell(w.snake.head() as int, w.snake.direction, w.width as int);
    }
    assert(i != 0);
    assert(1 <= i < w.snake.body.len() && w.snake.body[i] == head);
    assert(w.snake.body.skip(1)[i - 1] == head);
}

/// A tick that ends the game as won leaves a snake as long as the grid has
/// cells, and no reward.
pub proof fn lemma_won_fills_grid(w: WorldView)
    requires
        w.wf(),
        w.status != Some(GameStates::Win),
        w.tick().status == Some(GameStates::Win),
    ensures
        w.tick().snake.body.len() == w.size,
        w.tick().size == w.width * w.width,
        w.tick().reward_cell.is_none(),
        w.tick().snake.body.no_duplicates(),
{
    lemma_tick_wf(w);
    lemma_advance_distinct(w.snake, w.next_head());
}

/// A request to turn never leaves the snake heading for the cell right
/// behind its head, unless it headed there before: the direction changes
/// only to one whose step from the head leads elsewhere.
pub proof fn lemma_turn_never_reverses(w: WorldView, requested: Direction)
    requires
        w.wf(),
    ensures
        w.change_direction(requested).snake.body == w.snake.body,
        w.change_direction(requested).snake.direction != w.snake.direction ==> {
            &&& w.change_direction(requested).snake.direction == requested
            &&& w.neighbour(requested) != w.snake.body[1]
        },
        w.neighbour(requested) != w.snake.body[1] ==> w.change_direction(
            requested,
        ).snake.direction == requested,
{
    assert(on_grid(w.snake.body[0] as int, w.width as int));
    lemma_next_index_on_grid(w.snake.head() as int, requested, w.width as int);
}

/// A game that is won or lost stays so, and a tick changes nothing of it; a
/// game that is not being played is not changed by a tick.
pub proof fn lemma_finished_game_stays(w: WorldView, requested: Direction, candidate: usize)
    requires
        w.status == Some(GameStates::Win) || w.status == Some(GameStates::Lose),
    ensures
        w.tick() == w,
        w.start() == w,
        w.change_direction(requested).status == w.status,
        w.place_reward(candidate).status == w.status,
{
}

/// One call that a driver makes on a world.
pub ghost enum Command {
    /// Start the game.
    Start,
    /// Ask the snake to head in a direction.
    Turn(Direction),
    /// Offer a cell for the reward.
    Reward(usize),
    /// Step the game by one tick.
    Tick,
}

/// The world after one call.
pub open spec fn apply(w: WorldView, command: Command) -> WorldView {
    match command {
        Command::Start => w.start(),
        Command::Turn(direction) => w.change_direction(direction),
        Command::Reward(candidate) => w.place_reward(candidate),
        Command::Tick => w.tick(),
    }
}

/// The world after a sequence of calls, made in order.
pub open spec fn run(w: WorldView, commands: Seq<Command>) -> WorldView
    decreases commands.len(),
{
    if commands.len() == 0 {
        w
    } else {
        apply(run(w, commands.drop_last()), commands.last())
    }
}

/// Each call keeps the conditions of every world and the grid, and never
/// makes the snake shorter; only a tick moves the snake or makes it longer.
pub proof fn lemma_apply_keeps(w: WorldView, command: Command)
    requires
        w.wf(),
    ensures
        apply(w, command).wf(),
        apply(w, command).width == w.width,
        apply(w, command).size == w.size,
        apply(w, command).snake.body.len() >= w.snake.body.len(),
        command != Command::Tick ==> apply(w, command).snake.body == w.snake.body,
{
    lemma_tick_wf(w);
    lemma_tick_length(w);
}

/// Whatever a driver calls, in whatever order, the world keeps its
/// conditions and its grid, and the snake never gets shorter.
pub proof fn lemma_run_keeps(w: WorldView, commands: Seq<Command>)
    requires
        w.wf(),
    ensures
        run(w, commands).wf(),
        run(w, commands).width == w.width,
        run(w, commands).size == w.size,
        run(w, commands).snake.body.len() >= w.snake.body.len(),
    decreases commands.len(),
{
    if commands.len() > 0 {
        lemma_run_keeps(w, commands.drop_last());
        lemma_apply_keeps(run(w, commands.drop_last()), commands.last());
    }
}

/// A game that is won or lost stays so whatever a driver calls, and its
/// snake stays where it is.
pub proof fn lemma_run_keeps_outcome(w: WorldView, commands: Seq<Command>)
    requires
        w.status == Some(GameStates::Win) || w.status == Some(GameStates::Lose),
    ensures
        run(w, commands).status == w.status,
        run(w, commands).snake.body == w.snake.body,
    decreases commands.len(),
{
    if commands.len() > 0 {
        lemma_run_keeps_outcome(w, commands.drop_last());
    }
}

} // verus!
