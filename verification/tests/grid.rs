use snake_game::grid::col;
use snake_game::grid::next_index;
use snake_game::grid::row;
use snake_game::Direction;

#[test]
fn row_and_col_of_a_cell() {
    assert_eq!(row(20, 8), 2);
    assert_eq!(col(20, 8), 4);
    assert_eq!(row(0, 8), 0);
    assert_eq!(col(0, 8), 0);
    assert_eq!(row(63, 8), 7);
    assert_eq!(col(63, 8), 7);
}

#[test]
fn step_inside_the_grid() {
    assert_eq!(next_index(20, Direction::Up, 8), 12);
    assert_eq!(next_index(20, Direction::Down, 8), 28);
    assert_eq!(next_index(20, Direction::Left, 8), 19);
    assert_eq!(next_index(20, Direction::Right, 8), 21);
}

#[test]
fn up_from_top_row_wraps_to_bottom_row() {
    assert_eq!(next_index(4, Direction::Up, 8), 60);
    assert_eq!(next_index(0, Direction::Up, 8), 56);
    assert_eq!(next_index(7, Direction::Up, 8), 63);
}

#[test]
fn down_from_bottom_row_wraps_to_top_row() {
    assert_eq!(next_index(60, Direction::Down, 8), 4);
    assert_eq!(next_index(56, Direction::Down, 8), 0);
    assert_eq!(next_index(63, Direction::Down, 8), 7);
}

#[test]
fn left_from_left_edge_wraps_to_right_edge() {
    assert_eq!(next_index(16, Direction::Left, 8), 23);
    assert_eq!(next_index(0, Direction::Left, 8), 7);
    assert_eq!(next_index(56, Direction::Left, 8), 63);
}

#[test]
fn right_from_right_edge_wraps_to_left_edge() {
    assert_eq!(next_index(23, Direction::Right, 8), 16);
    assert_eq!(next_index(7, Direction::Right, 8), 0);
    assert_eq!(next_index(63, Direction::Right, 8), 56);
}

#[test]
fn grid_of_one_cell_steps_onto_itself() {
    assert_eq!(next_index(0, Direction::Up, 1), 0);
    assert_eq!(next_index(0, Direction::Down, 1), 0);
    assert_eq!(next_index(0, Direction::Left, 1), 0);
    assert_eq!(next_index(0, Direction::Right, 1), 0);
}

#[test]
fn every_step_stays_on_the_grid() {
    for width in 1..7usize {
        for index in 0..width * width {
            for direction in [Direction::Up, Direction::Down, Direction::Left, Direction::Right] {
                assert!(next_index(index, direction, width) < width * width);
            }
        }
    }
}

#[test]
fn up_and_down_undo_each_other() {
    for width in 1..7usize {
        for index in 0..width * width {
            let up = next_index(index, Direction::Up, width);
            assert_eq!(next_index(up, Direction::Down, width), index);
            let down = next_index(index, Direction::Down, width);
            assert_eq!(next_index(down, Direction::Up, width), index);
        }
    }
}

#[test]
fn left_and_right_undo_each_other() {
    for width in 1..7usize {
        for index in 0..width * width {
            let left = next_index(index, Direction::Left, width);
            assert_eq!(next_index(left, Direction::Right, width), index);
            let right = next_index(index, Direction::Right, width);
            assert_eq!(next_index(right, Direction::Left, width), index);
        }
    }
}

#[test]
fn a_step_keeps_the_row_or_the_column() {
    let width = 5usize;
    for index in 0..width * width {
        let up = next_index(index, Direction::Up, width);
        assert_eq!(col(up, width), col(index, width));
        assert_eq!(row(up, width), (row(index, width) + width - 1) % width);
        let right = next_index(index, Direction::Right, width);
        assert_eq!(row(right, width), row(index, width));
        assert_eq!(col(right, width), (col(index, width) + 1) % width);
    }
}
