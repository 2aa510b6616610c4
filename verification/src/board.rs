//! The game board: its dimensions and the apples lying on it.

use vstd::prelude::*;

use crate::snake::Point;

verus! {

/// The apples with the first occurrence of `p` removed; unchanged when no
/// apple lies on `p`.
pub open spec fn remove_first(s: Seq<Point>, p: Point) -> Seq<Point>
    decreases s.len(),
{
    if s.len() == 0 {
        s
    } else if s[0] == p {
        s.drop_first()
    } else {
        seq![s[0]] + remove_first(s.drop_first(), p)
    }
}

/// Removing the first occurrence of `p` removes exactly the element at the
/// smallest index holding `p`.
pub proof fn lemma_remove_first_at(s: Seq<Point>, p: Point, i: int)
    requires
        0 <= i < s.len(),
        s[i] == p,
        forall|j: int| 0 <= j < i ==> s[j] != p,
    ensures
        remove_first(s, p) == s.remove(i),
    decreases i,
{
    if i == 0 {
        assert(remove_first(s, p) =~= s.remove(0));
    } else {
        lemma_remove_first_at(s.drop_first(), p, i - 1);
        assert(seq![s[0]] + s.drop_first().remove(i - 1) =~= s.remove(i));
    }
}

/// A rectangular board of fixed dimensions carrying apples.
#[derive(Debug, PartialEq, Eq)]
pub struct Board {
    width: u32,
    height: u32,
    apples: Vec<Point>,
}

impl Board {
    /// The board's width.
    pub closed spec fn spec_width(self) -> u32 {
        self.width
    }

    /// The board's height.
    pub closed spec fn spec_height(self) -> u32 {
        self.height
    }

    /// The apples on the board, in the order they were added.
    pub closed spec fn spec_apples(self) -> Seq<Point> {
        self.apples@
    }

    /// An empty board of the given dimensions.
    pub fn new(width: u32, height: u32) -> (b: Board)
        ensures
            b.spec_width() == width,
            b.spec_height() == height,
            b.spec_apples() == Seq::<Point>::empty(),
    {
        Board { width, height, apples: Vec::new() }
    }

    pub fn width(&self) -> (w: u32)
        ensures
            w == self.spec_width(),
    {
        self.width
    }

    pub fn height(&self) -> (h: u32)
        ensures
            h == self.spec_height(),
    {
        self.height
    }

    /// Places one more apple on the board.
    pub fn add_apple(&mut self, apple: Point)
        ensures
            final (self).spec_apples() == old(self).spec_apples().push(apple),
            final (self).spec_width() == old(self).spec_width(),
            final (self).spec_height() == old(self).spec_height(),
    {
        self.apples.push(apple);
    }

    /// The apples currently on the board.
    pub fn apples(&self) -> (r: &Vec<Point>)
        ensures
            r@ == self.spec_apples(),
    {
        &self.apples
    }

    /// Eats the apple lying on `point`, if any: exactly the first recorded
    /// apple at that position disappears. Reports whether an apple was
    /// eaten; when none lies there, the board is untouched.
    pub fn try_to_eat_apple(&mut self, point: Point) -> (eaten: bool)
        ensures
            eaten <==> old(self).spec_apples().contains(point),
            eaten ==> final (self).spec_apples() == remove_first(
                old(self).spec_apples(),
                point,
            ),
            !eaten ==> *final (self) == *old(self),
            final (self).spec_width() == old(self).spec_width(),
            final (self).spec_height() == old(self).spec_height(),
    {
        let n = self.apples.len();
        let mut i: usize = 0;
        while i < n
            invariant
                i <= n,
                n == self.apples@.len(),
                *self == *old(self),
                forall|j: int| 0 <= j < i ==> self.apples@[j] != point,
            decreases n - i,
        {
            if self.apples[i] == point {
                proof {
                    lemma_remove_first_at(self.apples@, point, i as int);
                }
                self.apples.remove(i);
                return true;
            }
            i = i + 1;
        }
        false
    }
}

} // verus!
