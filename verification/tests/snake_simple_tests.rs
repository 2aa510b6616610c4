use worker_pool::snake_simple::Board;
use worker_pool::snake_simple::Direction;
use worker_pool::snake_simple::Point;
use worker_pool::snake_simple::Snake;

fn board() -> Board {
    Board { width: 20, height: 10, apples: Vec::<Point>::new() }
}

#[test]
fn snake_is_constructed_with_segments() {
    let snake = Snake::new(vec![(0, 0), (1, 0), (2, 0)]);

    assert_eq!(snake.head(), &Point { x: 0, y: 0 });
}

#[test]
fn snake_has_default_direction_up() {
    let snake = Snake::new(vec![(0, 0), (1, 0), (2, 0)]);

    assert_eq!(snake.direction(), Direction::Up);
}

fn check_move(segments: Vec<(u32, u32)>, direction: Direction, expected_head: Point) {
    let mut b = board();
    let mut snake = Snake::new(segments);
    snake.set_direction(direction);
    snake.next(&mut b);
    assert_eq!(*snake.head(), expected_head);
    assert!(snake.is_alive());
}

#[test]
fn snake_moves_in_given_direction() {
    check_move(vec![(5, 5), (5, 6), (5, 7)], Direction::Right, Point { x: 6, y: 5 });
    check_move(vec![(5, 5), (5, 6), (5, 7)], Direction::Left, Point { x: 4, y: 5 });
    check_move(vec![(5, 5), (5, 6), (5, 7)], Direction::Up, Point { x: 5, y: 4 });
    check_move(vec![(5, 7), (5, 6), (5, 5)], Direction::Down, Point { x: 5, y: 8 });
}

fn check_dies(segments: Vec<(u32, u32)>, direction: Direction) {
    let mut b = board();
    let mut snake = Snake::new(segments);
    assert!(snake.is_alive());
    snake.set_direction(direction);
    snake.next(&mut b);
    assert!(!snake.is_alive());
}

#[test]
fn simple_snake_dies_when_hits_the_wall() {
    check_dies(vec![(10, 1)], Direction::Up);
    check_dies(vec![(10, 8)], Direction::Down);
    check_dies(vec![(1, 5)], Direction::Left);
    check_dies(vec![(18, 5)], Direction::Right);
}

#[test]
fn simple_snake_dies_when_eats_itself() {
    check_dies(vec![(5, 5), (5, 6), (5, 7), (4, 7), (4, 6), (4, 5)], Direction::Left);
    check_dies(vec![(5, 5), (5, 6), (5, 7), (6, 7), (6, 6), (6, 5)], Direction::Right);
    check_dies(vec![(5, 5), (6, 5), (7, 5), (7, 4), (6, 4), (5, 4)], Direction::Up);
    check_dies(vec![(5, 5), (5, 6), (5, 7), (5, 4), (5, 3), (5, 2)], Direction::Down);
}

#[test]
fn apple_is_consumed_when_snake_eats_it() {
    let mut b = board();
    b.add_apple(Point { x: 5, y: 4 });
    assert_eq!(b.apples().len(), 1);

    let mut snake = Snake::new(vec![(5, 5), (5, 6), (5, 7)]);
    snake.set_direction(Direction::Up);
    snake.next(&mut b);
    assert_eq!(*snake.head(), Point { x: 5, y: 4 });
    assert_eq!(b.apples().len(), 0);
}
