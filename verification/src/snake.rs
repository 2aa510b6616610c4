//! The snake itself: a chain of segments that moves across the board,
//! grows on apples, and dies on walls or on its own body.

use vstd::prelude::*;

use crate::board::remove_first;
use crate::board::Board;

verus! {

/// A cell of the board, as `(x, y)`.
#[derive(Debug, PartialEq, Eq, Structural, Clone, Copy)]
pub struct Point(pub u32, pub u32);

impl Point {
    pub fn x(&self) -> (x: u32)
        ensures
            x == self.0,
    {
        self.0
    }

    pub fn y(&self) -> (y: u32)
        ensures
            y == self.1,
    {
        self.1
    }
}

/// The four directions a snake can head in.
#[derive(Debug, PartialEq, Eq, Structural, Clone, Copy)]
pub enum Direction {
    Left,
    Right,
    Up,
    Down,
}

/// The direction opposite to `d`.
pub open spec fn opposite(d: Direction) -> Direction {
    match d {
        Direction::Left => Direction::Right,
        Direction::Right => Direction::Left,
        Direction::Up => Direction::Down,
        Direction::Down => Direction::Up,
    }
}

/// The cell reached from `p` by one step in direction `d` (exact when the
/// step stays within the coordinate range).
pub open spec fn next_point(p: Point, d: Direction) -> Point {
    match d {
        Direction::Left => Point((p.0 - 1) as u32, p.1),
        Direction::Right => Point((p.0 + 1) as u32, p.1),
        Direction::Up => Point(p.0, (p.1 - 1) as u32),
        Direction::Down => Point(p.0, (p.1 + 1) as u32),
    }
}

/// Whether `p` lies on the border of a `w` by `h` board.
pub open spec fn spec_hits_wall(p: Point, w: u32, h: u32) -> bool {
    p.0 == w - 1 || p.1 == h - 1 || p.0 == 0 || p.1 == 0
}

/// Whether one step from `head` in direction `d` stays within the `u32`
/// coordinate range (the coordinates never wrap).
pub open spec fn step_in_range(head: Point, d: Direction) -> bool {
    match d {
        Direction::Left => head.0 > 0,
        Direction::Right => head.0 < u32::MAX,
        Direction::Up => head.1 > 0,
        Direction::Down => head.1 < u32::MAX,
    }
}

/// The direction a player's request turns the snake to: the requested
/// direction, unless it is the exact reverse of the current one, which is
/// ignored — a snake can never turn back onto itself in place.
pub open spec fn spec_allowed_direction(current: Direction, requested: Direction) -> Direction {
    match requested {
        Direction::Up => if current != Direction::Down {
            Direction::Up
        } else {
            current
        },
        Direction::Down => if current != Direction::Up {
            Direction::Down
        } else {
            current
        },
        Direction::Left => if current != Direction::Right {
            Direction::Left
        } else {
            current
        },
        Direction::Right => if current != Direction::Left {
            Direction::Right
        } else {
            current
        },
    }
}

/// Resolves a requested turn against the current direction: the request
/// wins unless it would reverse the snake on the spot. The result is never
/// the opposite of the current direction.
pub fn allowed_direction(current: Direction, requested: Direction) -> (r: Direction)
    ensures
        r == spec_allowed_direction(current, requested),
        r != opposite(current),
{
    match requested {
        Direction::Up => if current != Direction::Down {
            Direction::Up
        } else {
            current
        },
        Direction::Down => if current != Direction::Up {
            Direction::Down
        } else {
            current
        },
        Direction::Left => if current != Direction::Right {
            Direction::Left
        } else {
            current
        },
        Direction::Right => if current != Direction::Left {
            Direction::Right
        } else {
            current
        },
    }
}

/// The snake: its segments (head first), its heading, and whether it is
/// still alive.
#[derive(Debug)]
pub struct Snake {
    pub segments: Vec<Point>,
    direction: Direction,
    is_alive: bool,
}

impl Snake {
    /// The snake's heading.
    pub closed spec fn spec_direction(self) -> Direction {
        self.direction
    }

    /// Whether the snake is alive.
    pub closed spec fn spec_alive(self) -> bool {
        self.is_alive
    }

    /// The snake's segments, head first.
    pub closed spec fn spec_segments(self) -> Seq<Point> {
        self.segments@
    }

    /// A live snake from `(x, y)` pairs, head first, heading up.
    pub fn new(segments: Vec<(u32, u32)>) -> (s: Snake)
        ensures
            s.spec_segments().len() == segments@.len(),
            forall|i: int|
                0 <= i < segments@.len() ==> s.spec_segments()[i] == (Point(
                    segments@[i].0,
                    segments@[i].1,
                )),
            s.spec_direction() == Direction::Up,
            s.spec_alive(),
    {
        let mut snake = Snake { segments: Vec::new(), direction: Direction::Up, is_alive: true };
        let n = segments.len();
        let mut i: usize = 0;
        while i < n
            invariant
                i <= n,
                n == segments@.len(),
                snake.segments@.len() == i,
                forall|j: int|
                    0 <= j < i ==> snake.segments@[j] == (Point(segments@[j].0, segments@[j].1)),
                snake.direction == Direction::Up,
                snake.is_alive,
            decreases n - i,
        {
            let s = segments[i];
            snake.segments.push(Point(s.0, s.1));
            i = i + 1;
        }
        snake
    }

    /// The snake's head: its first segment.
    pub fn head(&self) -> (h: &Point)
        requires
            self.spec_segments().len() > 0,
        ensures
            *h == self.spec_segments()[0],
    {
        &self.segments[0]
    }

    /// One move: the snake turns to `direction` and its head advances one
    /// cell. It dies if the new head lies on the border or on its own body;
    /// if the new head eats an apple the snake grows by one segment, else
    /// the tail is dragged along.
    pub fn move_to(&mut self, direction: Direction, board: &mut Board)
        requires
            old(self).spec_segments().len() > 0,
            old(board).spec_width() >= 1,
            old(board).spec_height() >= 1,
            step_in_range(old(self).spec_segments()[0], direction),
        ensures
            final (self).spec_direction() == direction,
            ({
                let h = next_point(old(self).spec_segments()[0], direction);
                &&& final (self).spec_alive() == (old(self).spec_alive() && !spec_hits_wall(
                    h,
                    old(board).spec_width(),
                    old(board).spec_height(),
                ) && !old(self).spec_segments().contains(h))
                &&& old(board).spec_apples().contains(h) ==> {
                    &&& final (self).spec_segments() == seq![h] + old(self).spec_segments()
                    &&& final (board).spec_apples() == remove_first(old(board).spec_apples(), h)
                }
                &&& !old(board).spec_apples().contains(h) ==> {
                    &&& final (self).spec_segments() == (seq![h] + old(self).spec_segments()).drop_last()
                    &&& *final (board) == *old(board)
                }
            }),
            final (board).spec_width() == old(board).spec_width(),
            final (board).spec_height() == old(board).spec_height(),
    {
        self.direction = direction;

        let head = *self.head();
        let Point(x, y) = head;

        let new_head = match direction {
            Direction::Left => Point(x - 1, y),
            Direction::Right => Point(x + 1, y),
            Direction::Up => Point(x, y - 1),
            Direction::Down => Point(x, y + 1),
        };

        if self.hits_the_wall(new_head, board) || self.eats_itself(new_head) {
            self.is_alive = false;
        }

        self.segments.insert(0, new_head);
        assert(self.segments@ =~= seq![new_head] + old(self).segments@);

        if board.try_to_eat_apple(new_head) {
            return;
        }

        let ghost grown = self.segments@;
        self.segments.pop();
        assert(self.segments@ =~= grown.drop_last());
    }

    /// Whether `new_head` lies on the board's border.
    fn hits_the_wall(&self, new_head: Point, board: &Board) -> (r: bool)
        requires
            board.spec_width() >= 1,
            board.spec_height() >= 1,
        ensures
            r == spec_hits_wall(new_head, board.spec_width(), board.spec_height()),
    {
        let Point(x, y) = new_head;
        x == board.width() - 1 || y == board.height() - 1 || x == 0 || y == 0
    }

    /// Whether `new_head` lies on one of the snake's current segments.
    fn eats_itself(&self, new_head: Point) -> (r: bool)
        ensures
            r == self.spec_segments().contains(new_head),
    {
        let n = self.segments.len();
        let mut i: usize = 0;
        while i < n
            invariant
                i <= n,
                n == self.segments@.len(),
                forall|j: int| 0 <= j < i ==> self.segments@[j] != new_head,
            decreases n - i,
        {
            if self.segments[i] == new_head {
                return true;
            }
            i = i + 1;
        }
        false
    }

    /// Whether the snake is still alive.
    pub fn is_alive(&self) -> (r: bool)
        ensures
            r == self.spec_alive(),
    {
        self.is_alive
    }

    /// The snake's heading.
    pub fn direction(&self) -> (d: Direction)
        ensures
            d == self.spec_direction(),
    {
        self.direction
    }

    /// The snake's segments, head first.
    pub fn segments(&self) -> (r: &Vec<Point>)
        ensures
            r@ == self.spec_segments(),
    {
        &self.segments
    }
}

/// Two snakes are the same exactly when their segments coincide; heading
/// and liveness do not enter the comparison.
impl PartialEq for Snake {
    fn eq(&self, other: &Snake) -> (r: bool) {
        if self.segments.len() != other.segments.len() {
            return false;
        }
        let n = self.segments.len();
        let mut i: usize = 0;
        while i < n
            invariant
                i <= n,
                n == self.segments@.len(),
                n == other.segments@.len(),
                forall|j: int| 0 <= j < i ==> self.segments@[j] == other.segments@[j],
            decreases n - i,
        {
            if self.segments[i] != other.segments[i] {
                return false;
            }
            i = i + 1;
        }
        proof {
            assert(self.segments@ =~= other.segments@);
        }
        true
    }
}

impl vstd::std_specs::cmp::PartialEqSpecImpl for Snake {
    open spec fn obeys_eq_spec() -> bool {
        true
    }

    open spec fn eq_spec(&self, other: &Snake) -> bool {
        self.spec_segments() == other.spec_segments()
    }
}

} // verus!
