use snake_game::Direction;
use snake_game::Snake;
use snake_game::SnakeCell;

fn indices(snake: &Snake) -> Vec<usize> {
    snake.cells().iter().map(|cell| cell.0).collect()
}

#[test]
fn new_snake_lies_on_falling_indices_and_heads_down() {
    let snake = Snake::new(20, 3);
    assert_eq!(indices(&snake), vec![20, 19, 18]);
    assert_eq!(snake.len(), 3);
    assert_eq!(snake.head(), 20);
    assert_eq!(snake.direction(), Direction::Down);
    assert_eq!(snake.cell(1), 19);
}

#[test]
fn new_snake_may_reach_index_zero() {
    let snake = Snake::new(2, 3);
    assert_eq!(indices(&snake), vec![2, 1, 0]);
    let one = Snake::new(0, 1);
    assert_eq!(indices(&one), vec![0]);
}

#[test]
fn snake_cells_are_equal_by_index() {
    assert_eq!(SnakeCell(4), SnakeCell(4));
    assert_ne!(SnakeCell(4), SnakeCell(5));
}

#[test]
fn advance_shifts_every_cell_toward_the_tail() {
    let mut snake = Snake::new(20, 3);
    snake.advance(28);
    assert_eq!(indices(&snake), vec![28, 20, 19]);
    snake.advance(36);
    assert_eq!(indices(&snake), vec![36, 28, 20]);
    assert_eq!(snake.direction(), Direction::Down);
}

#[test]
fn advance_of_a_single_cell_replaces_it() {
    let mut snake = Snake::new(7, 1);
    snake.advance(15);
    assert_eq!(indices(&snake), vec![15]);
}

#[test]
fn hits_itself_looks_behind_the_head_only() {
    let mut snake = Snake::new(20, 3);
    assert!(!snake.hits_itself());
    snake.advance(20);
    assert_eq!(indices(&snake), vec![20, 20, 19]);
    assert!(snake.hits_itself());
    let one = Snake::new(5, 1);
    assert!(!one.hits_itself());
}

#[test]
fn grow_repeats_the_cell_before_the_tail() {
    let mut snake = Snake::new(5, 3);
    snake.grow();
    assert_eq!(indices(&snake), vec![5, 4, 3, 4]);
    snake.grow();
    assert_eq!(indices(&snake), vec![5, 4, 3, 4, 3]);
}

#[test]
fn turn_into_the_neck_is_dropped() {
    let mut snake = Snake::new(20, 3);
    snake.change_direction(Direction::Left, 8);
    assert_eq!(snake.direction(), Direction::Down);
    snake.change_direction(Direction::Right, 8);
    assert_eq!(snake.direction(), Direction::Right);
    snake.change_direction(Direction::Up, 8);
    assert_eq!(snake.direction(), Direction::Up);
    assert_eq!(indices(&snake), vec![20, 19, 18]);
}

#[test]
fn turn_into_the_neck_across_the_edge_is_dropped() {
    // Head on the left edge of row 1, neck on the right edge of row 0: a
    // step left wraps to index 15, which is not the neck.
    let mut snake = Snake::new(8, 3);
    snake.change_direction(Direction::Left, 8);
    assert_eq!(snake.direction(), Direction::Left);
    // On a grid two cells wide, left and right of index 3 both lead to the
    // neck on index 2.
    let mut small = Snake::new(3, 3);
    small.change_direction(Direction::Left, 2);
    assert_eq!(small.direction(), Direction::Down);
    small.change_direction(Direction::Right, 2);
    assert_eq!(small.direction(), Direction::Down);
    small.change_direction(Direction::Up, 2);
    assert_eq!(small.direction(), Direction::Up);
}

#[test]
fn snake_of_one_cell_takes_any_direction() {
    let mut snake = Snake::new(20, 1);
    snake.change_direction(Direction::Left, 8);
    assert_eq!(snake.direction(), Direction::Left);
    snake.change_direction(Direction::Right, 8);
    assert_eq!(snake.direction(), Direction::Right);
    snake.change_direction(Direction::Up, 8);
    assert_eq!(snake.direction(), Direction::Up);
    snake.change_direction(Direction::Down, 8);
    assert_eq!(snake.direction(), Direction::Down);
}
