//! An earlier, self-contained cut of the snake logic: the snake keeps its
//! own heading and advances with `next`, and the board reports collisions
//! with its border.

use vstd::prelude::*;

verus! {

/// A cell of the board, by named coordinates.
#[derive(Debug, PartialEq, Eq, Structural, Copy, Clone)]
pub struct Point {
    pub x: u32,
    pub y: u32,
}

/// The four directions a snake can head in.
#[derive(Debug, PartialEq, Eq, Structural, Copy, Clone)]
pub enum Direction {
    Up,
    Down,
    Left,
    Right,
}

/// The cell reached from `p` by one step in direction `d` (exact when the
/// step stays within the coordinate range).
pub open spec fn next_point(p: Point, d: Direction) -> Point {
    match d {
        Direction::Up => Point { x: p.x, y: (p.y - 1) as u32 },
        Direction::Down => Point { x: p.x, y: (p.y + 1) as u32 },
        Direction::Left => Point { x: (p.x - 1) as u32, y: p.y },
        Direction::Right => Point { x: (p.x + 1) as u32, y: p.y },
    }
}

/// Whether one step from `head` in direction `d` stays within the `u32`
/// coordinate range.
pub open spec fn step_in_range(head: Point, d: Direction) -> bool {
    match d {
        Direction::Up => head.y > 0,
        Direction::Down => head.y < u32::MAX,
        Direction::Left => head.x > 0,
        Direction::Right => head.x < u32::MAX,
    }
}

/// Whether `p` lies on or beyond the border of a `w` by `h` board.
pub open spec fn spec_collision(p: Point, w: u32, h: u32) -> bool {
    p.x == 0 || p.x >= w - 1 || p.y == 0 || p.y >= h - 1
}

/// The apples with the first occurrence of `p` removed; unchanged when no
/// apple lies on `p`.
pub open spec fn remove_first(s: Seq<Point>, p: Point) -> Seq<Point>
    decreases s.len(),
{
    if s.len() == 0 {
        s
    } else if s[0] == p {
        s.drop_first()
    } else {
        seq![s[0]] + remove_first(s.drop_first(), p)
    }
}

/// Removing the first occurrence of `p` removes exactly the element at the
/// smallest index holding `p`.
pub proof fn lemma_remove_first_at(s: Seq<Point>, p: Point, i: int)
    requires
        0 <= i < s.len(),
        s[i] == p,
        forall|j: int| 0 <= j < i ==> s[j] != p,
    ensures
        remove_first(s, p) == s.remove(i),
    decreases i,
{
    if i == 0 {
        assert(remove_first(s, p) =~= s.remove(0));
    } else {
        lemma_remove_first_at(s.drop_first(), p, i - 1);
        assert(seq![s[0]] + s.drop_first().remove(i - 1) =~= s.remove(i));
    }
}

/// The snake: its points (head first), its heading, and whether it is
/// still alive.
#[derive(Debug)]
pub struct Snake {
    points: Vec<Point>,
    direction: Direction,
    is_alive: bool,
}

/// A rectangular board carrying apples.
pub struct Board {
    pub width: u32,
    pub height: u32,
    pub apples: Vec<Point>,
}

impl Snake {
    /// The snake's points, head first.
    pub closed spec fn spec_points(self) -> Seq<Point> {
        self.points@
    }

    /// The snake's heading.
    pub closed spec fn spec_direction(self) -> Direction {
        self.direction
    }

    /// Whether the snake is alive.
    pub closed spec fn spec_alive(self) -> bool {
        self.is_alive
    }

    /// A live snake from `(x, y)` pairs, head first, heading up.
    pub fn new(initial_points: Vec<(u32, u32)>) -> (s: Snake)
        ensures
            s.spec_points().len() == initial_points@.len(),
            forall|i: int|
                0 <= i < initial_points@.len() ==> s.spec_points()[i] == (Point {
                    x: initial_points@[i].0,
                    y: initial_points@[i].1,
                }),
            s.spec_direction() == Direction::Up,
            s.spec_alive(),
    {
        let mut points: Vec<Point> = Vec::new();
        let n = initial_points.len();
        let mut i: usize = 0;
        while i < n
            invariant
                i <= n,
                n == initial_points@.len(),
                points@.len() == i,
                forall|j: int|
                    0 <= j < i ==> points@[j] == (Point {
                        x: initial_points@[j].0,
                        y: initial_points@[j].1,
                    }),
            decreases n - i,
        {
            let point = initial_points[i];
            points.push(Point { x: point.0, y: point.1 });
            i = i + 1;
        }
        Snake { points, direction: Direction::Up, is_alive: true }
    }

    /// The same snake heading in `direction`.
    pub fn with_direction(self, direction: Direction) -> (s: Snake)
        ensures
            s.spec_points() == self.spec_points(),
            s.spec_direction() == direction,
            s.spec_alive() == self.spec_alive(),
    {
        let mut s = self;
        s.direction = direction;
        s
    }

    /// The snake's head: its first point.
    pub fn head(&self) -> (h: &Point)
        requires
            self.spec_points().len() > 0,
        ensures
            *h == self.spec_points()[0],
    {
        &self.points[0]
    }

    /// The direction a freshly built snake heads in. (This cut of the
    /// exercise reports the default heading, not the stored one.)
    pub fn direction(&self) -> (d: Direction)
        ensures
            d == Direction::Up,
    {
        Direction::Up
    }

    /// Turns the snake to `new_direction`.
    pub fn set_direction(&mut self, new_direction: Direction)
        ensures
            final (self).spec_direction() == new_direction,
            final (self).spec_points() == old(self).spec_points(),
            final (self).spec_alive() == old(self).spec_alive(),
    {
        self.direction = new_direction;
    }

    /// One step in the snake's current heading. The snake dies if the new
    /// head collides with the border or lies on its own body; it grows by
    /// one point when the new head eats an apple, else the tail is dragged
    /// along.
    pub fn next(&mut self, board: &mut Board)
        requires
            old(self).spec_points().len() > 0,
            old(board).width >= 1,
            old(board).height >= 1,
            step_in_range(old(self).spec_points()[0], old(self).spec_direction()),
        ensures
            final (self).spec_direction() == old(self).spec_direction(),
            ({
                let h = next_point(old(self).spec_points()[0], old(self).spec_direction());
                &&& final (self).spec_alive() == (old(self).spec_alive() && !spec_collision(
                    h,
                    old(board).width,
                    old(board).height,
                ) && !old(self).spec_points().contains(h))
                &&& old(board).apples@.contains(h) ==> {
                    &&& final (self).spec_points() == seq![h] + old(self).spec_points()
                    &&& final (board).apples@ == remove_first(old(board).apples@, h)
                }
                &&& !old(board).apples@.contains(h) ==> {
                    &&& final (self).spec_points() == (seq![h]
                        + old(self).spec_points()).drop_last()
                    &&& *final (board) == *old(board)
                }
            }),
            final (board).width == old(board).width,
            final (board).height == old(board).height,
    {
        let head = *self.head();
        let x = head.x;
        let y = head.y;

        let new_head = match self.direction {
            Direction::Up => Point { x, y: y - 1 },
            Direction::Down => Point { x, y: y + 1 },
            Direction::Left => Point { x: x - 1, y },
            Direction::Right => Point { x: x + 1, y },
        };

        if board.is_collision(&new_head) {
            self.is_alive = false;
        }

        if self.contains_point(&new_head) {
            self.is_alive = false;
        }

        self.points.insert(0, new_head);
        assert(self.points@ =~= seq![new_head] + old(self).spec_points());

        if !board.try_to_eat_apple(&new_head) {
            let ghost grown = self.points@;
            self.points.pop();
            assert(self.points@ =~= grown.drop_last());
        }
    }

    /// Whether `p` lies on one of the snake's current points.
    fn contains_point(&self, p: &Point) -> (r: bool)
        ensures
            r == self.spec_points().contains(*p),
    {
        let n = self.points.len();
        let mut i: usize = 0;
        while i < n
            invariant
                i <= n,
                n == self.points@.len(),
                forall|j: int| 0 <= j < i ==> self.points@[j] != *p,
            decreases n - i,
        {
            if self.points[i].x == p.x && self.points[i].y == p.y {
                return true;
            }
            i = i + 1;
        }
        false
    }

    /// Whether the snake is still alive.
    pub fn is_alive(&self) -> (r: bool)
        ensures
            r == self.spec_alive(),
    {
        self.is_alive
    }
}

impl Board {
    /// Whether `snake_head` lies on or beyond the board's border.
    pub fn is_collision(&self, snake_head: &Point) -> (r: bool)
        requires
            self.width >= 1,
            self.height >= 1,
        ensures
            r == spec_collision(*snake_head, self.width, self.height),
    {
        snake_head.x == 0 || snake_head.x >= self.width - 1 || snake_head.y == 0 || snake_head.y
            >= self.height - 1
    }

    /// Eats the apple lying on `snake_head`, if any: exactly the first
    /// recorded apple at that position disappears. Reports whether an apple
    /// was eaten; when none lies there, the board is untouched.
    pub fn try_to_eat_apple(&mut self, snake_head: &Point) -> (eaten: bool)
        ensures
            eaten <==> old(self).apples@.contains(*snake_head),
            eaten ==> final (self).apples@ == remove_first(old(self).apples@, *snake_head),
            !eaten ==> *final (self) == *old(self),
            final (self).width == old(self).width,
            final (self).height == old(self).height,
    {
        let n = self.apples.len();
        let mut i: usize = 0;
        while i < n
            invariant
                i <= n,
                n == self.apples@.len(),
                *self == *old(self),
                forall|j: int| 0 <= j < i ==> self.apples@[j] != *snake_head,
            decreases n - i,
        {
            if self.apples[i] == *snake_head {
                proof {
                    lemma_remove_first_at(self.apples@, *snake_head, i as int);
                }
                self.apples.remove(i);
                return true;
            }
            i = i + 1;
        }
        false
    }

    /// Places one more apple on the board.
    pub fn add_apple(&mut self, apple: Point)
        ensures
            final (self).apples@ == old(self).apples@.push(apple),
            final (self).width == old(self).width,
            final (self).height == old(self).height,
    {
        self.apples.push(apple);
    }

    /// The apples currently on the board.
    pub fn apples(&self) -> (r: &Vec<Point>)
        ensures
            r@ == self.apples@,
    {
        &self.apples
    }
}

} // verus!
