//! Compass directions on the grid.

use vstd::prelude::*;

verus! {

/// One of the four directions in which the snake can travel. Rows grow
/// downwards and columns grow to the right.
#[derive(Debug, Clone, Copy, PartialEq, Eq, Structural)]
pub enum Direction {
    Up,
    Down,
    Left,
    Right,
}

impl Direction {
    /// The direction pointing the other way along the same axis.
    pub open spec fn opposite(self) -> Direction {
        match self {
            Direction::Down => Direction::Up,
            Direction::Up => Direction::Down,
            Direction::Left => Direction::Right,
            Direction::Right => Direction::Left,
        }
    }

    /// Whether travel in this direction changes the column and leaves the row alone.
    pub open spec fn is_horizontal(self) -> bool {
        self == Direction::Left || self == Direction::Right
    }

    /// Returns the direction pointing the other way.
    pub fn get_oposite(&self) -> (res: Self)
        ensures
            res == self.opposite(),
            res != *self,
            res.opposite() == *self,
    {
        match self {
            Direction::Down => Direction::Up,
            Direction::Up => Direction::Down,
            Direction::Left => Direction::Right,
            Direction::Right => Direction::Left,
        }
    }

    /// Reversing twice gives the direction back, and no direction is its own
    /// reverse.
    pub proof fn lemma_opposite_involutive(d: Direction)
        ensures
            d.opposite().opposite() == d,
            d.opposite() != d,
            d.opposite().is_horizontal() == d.is_horizontal(),
    {
    }
}

} // verus!
