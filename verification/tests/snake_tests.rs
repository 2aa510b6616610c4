use worker_pool::board::Board;
use worker_pool::snake::allowed_direction;
use worker_pool::snake::Direction;
use worker_pool::snake::Point;
use worker_pool::snake::Snake;

fn board() -> Board {
    Board::new(20, 10)
}

#[test]
fn board_has_width_and_height() {
    let board = Board::new(10, 20);

    assert_eq!(board.width(), 10);
    assert_eq!(board.height(), 20);
}

#[test]
fn snake_constructed_with_segments() {
    let snake = Snake::new(vec![(0, 0), (1, 0), (2, 0)]);

    assert_eq!(snake.head(), &Point(0, 0));
}

fn check_move(mut snake: Snake, direction: Direction, expected_snake: Snake) {
    let mut board = board();
    snake.move_to(direction, &mut board);
    assert_eq!(snake, expected_snake);
    assert_eq!(snake.direction(), direction);
}

#[test]
fn snake_moves_right() {
    check_move(
        Snake::new(vec![(5, 5), (5, 6), (5, 7)]),
        Direction::Right,
        Snake::new(vec![(6, 5), (5, 5), (5, 6)]),
    );
}

#[test]
fn snake_moves_left() {
    check_move(
        Snake::new(vec![(5, 5), (5, 6), (5, 7)]),
        Direction::Left,
        Snake::new(vec![(4, 5), (5, 5), (5, 6)]),
    );
}

#[test]
fn snake_moves_up() {
    check_move(
        Snake::new(vec![(5, 5), (5, 6), (5, 7)]),
        Direction::Up,
        Snake::new(vec![(5, 4), (5, 5), (5, 6)]),
    );
}

#[test]
fn snake_moves_down() {
    check_move(
        Snake::new(vec![(5, 7), (5, 6), (5, 5)]),
        Direction::Down,
        Snake::new(vec![(5, 8), (5, 7), (5, 6)]),
    );
}

fn check_dies(segments: Vec<(u32, u32)>, direction: Direction) {
    let mut board = board();
    let mut snake = Snake::new(segments);

    assert!(snake.is_alive());

    snake.move_to(direction, &mut board);

    assert!(!snake.is_alive());
}

#[test]
fn snake_dies_when_hits_the_wall() {
    check_dies(vec![(10, 1)], Direction::Up);
    check_dies(vec![(10, 8)], Direction::Down);
    check_dies(vec![(1, 5)], Direction::Left);
    check_dies(vec![(18, 5)], Direction::Right);
}

#[test]
fn snake_dies_when_eats_itself() {
    check_dies(vec![(5, 5), (5, 6), (5, 7), (4, 7), (4, 6), (4, 5)], Direction::Left);
    check_dies(vec![(5, 5), (5, 6), (5, 7), (6, 7), (6, 6), (6, 5)], Direction::Right);
    check_dies(vec![(5, 5), (6, 5), (7, 5), (7, 4), (6, 4), (5, 4)], Direction::Up);
    check_dies(vec![(5, 5), (5, 6), (5, 7), (5, 4), (5, 3), (5, 2)], Direction::Down);
}

#[test]
fn when_snake_eats_apple_it_grows() {
    let mut board = board();
    board.add_apple(Point(5, 4));

    let mut snake = Snake::new(vec![(5, 5), (5, 6), (5, 7)]);

    snake.move_to(Direction::Up, &mut board);

    assert_eq!(snake, Snake::new(vec![(5, 4), (5, 5), (5, 6), (5, 7)]));
    assert_eq!(board.apples().len(), 0);
}

#[test]
fn eating_removes_only_the_first_matching_apple() {
    let mut board = board();
    board.add_apple(Point(5, 4));
    board.add_apple(Point(3, 3));
    board.add_apple(Point(5, 4));

    let mut ok = board.try_to_eat_apple(Point(5, 4));
    assert!(ok);
    assert_eq!(board.apples(), &vec![Point(3, 3), Point(5, 4)]);

    ok = board.try_to_eat_apple(Point(9, 9));
    assert!(!ok);
    assert_eq!(board.apples(), &vec![Point(3, 3), Point(5, 4)]);
}

#[test]
fn requested_turn_wins_unless_it_reverses() {
    assert_eq!(allowed_direction(Direction::Left, Direction::Up), Direction::Up);
    assert_eq!(allowed_direction(Direction::Left, Direction::Down), Direction::Down);
    assert_eq!(allowed_direction(Direction::Left, Direction::Right), Direction::Left);
    assert_eq!(allowed_direction(Direction::Up, Direction::Down), Direction::Up);
    assert_eq!(allowed_direction(Direction::Down, Direction::Up), Direction::Down);
    assert_eq!(allowed_direction(Direction::Right, Direction::Left), Direction::Right);
    assert_eq!(allowed_direction(Direction::Right, Direction::Right), Direction::Right);
}
