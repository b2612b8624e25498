//! Grid coordinates.

use vstd::prelude::*;
use crate::direction::Direction;
use crate::random::random_in_range;
use crate::snake::Snake;

verus! {

/// How many random cells are tried before the grid is searched cell by cell.
pub const SAMPLING_ATTEMPTS: u32 = 4096;

/// A cell of the grid, `x` counting columns from the left edge and `y` counting
/// rows from the top edge.
#[derive(Clone, Copy, PartialEq, Eq, Structural, Debug)]
pub struct Point {
    pub x: u16,
    pub y: u16,
}

impl Point {
    /// Whether moving `count` cells in `direction` stays within the range of
    /// the coordinate type.
    pub open spec fn can_shift(self, direction: Direction, count: u16) -> bool {
        match direction {
            Direction::Down => self.y + count <= u16::MAX,
            Direction::Up => count <= self.y,
            Direction::Left => count <= self.x,
            Direction::Right => self.x + count <= u16::MAX,
        }
    }

    /// The cell `count` steps away in `direction`: up and left decrease a
    /// coordinate, down and right increase one.
    pub open spec fn shifted(self, direction: Direction, count: u16) -> Point {
        match direction {
            Direction::Down => Point { x: self.x, y: (self.y + count) as u16 },
            Direction::Up => Point { x: self.x, y: (self.y - count) as u16 },
            Direction::Left => Point { x: (self.x - count) as u16, y: self.y },
            Direction::Right => Point { x: (self.x + count) as u16, y: self.y },
        }
    }

    /// Whether the two cells share an edge.
    pub open spec fn is_adjacent(self, other: Point) -> bool {
        ||| self.x == other.x && (self.y - other.y == 1 || other.y - self.y == 1)
        ||| self.y == other.y && (self.x - other.x == 1 || other.x - self.x == 1)
    }

    /// Whether the cell lies on the outer ring of a `width` by `height` grid.
    pub open spec fn is_wall(self, width: u16, height: u16) -> bool {
        self.x == 0 || self.x == width - 1 || self.y == 0 || self.y == height - 1
    }

    /// Whether the cell lies strictly inside the wall ring of a `width` by
    /// `height` grid.
    pub open spec fn is_interior(self, width: u16, height: u16) -> bool {
        1 <= self.x <= width - 2 && 1 <= self.y <= height - 2
    }

    /// Makes the cell at column `x`, row `y`. Any pair of coordinates is accepted.
    pub fn new(x: u16, y: u16) -> (res: Self)
        ensures
            res == (Point { x, y }),
    {
        Self { x, y }
    }

    /// Whether the two cells share an edge.
    pub fn touches(&self, other: &Point) -> (res: bool)
        ensures
            res == self.is_adjacent(*other),
    {
        if self.x == other.x {
            (self.y > other.y && self.y - other.y == 1) || (other.y > self.y && other.y - self.y
                == 1)
        } else if self.y == other.y {
            (self.x > other.x && self.x - other.x == 1) || (other.x > self.x && other.x - self.x
                == 1)
        } else {
            false
        }
    }

    /// Returns the cell `count` steps away in `direction`. The caller sees to it
    /// that the move does not leave the coordinate range.
    pub fn get_transformed(&self, direction: &Direction, count: u16) -> (res: Self)
        requires
            self.can_shift(*direction, count),
        ensures
            res == self.shifted(*direction, count),
    {
        let mut new_point = *self;
        match direction {
            Direction::Down => new_point.y = new_point.y + count,
            Direction::Up => new_point.y = new_point.y - count,
            Direction::Left => new_point.x = new_point.x - count,
            Direction::Right => new_point.x = new_point.x + count,
        };

        new_point
    }

    /// Returns the cell `count` steps away in `direction`, or `None` where the
    /// move would leave the coordinate range, as a step up from the top row
    /// or left from the first column does.
    pub fn try_transformed(&self, direction: &Direction, count: u16) -> (res: Option<Self>)
        ensures
            res == (if self.can_shift(*direction, count) {
                Some(self.shifted(*direction, count))
            } else {
                None::<Point>
            }),
    {
        let fits = match direction {
            Direction::Down => count <= u16::MAX - self.y,
            Direction::Up => count <= self.y,
            Direction::Left => count <= self.x,
            Direction::Right => count <= u16::MAX - self.x,
        };
        if fits {
            Some(self.get_transformed(direction, count))
        } else {
            None
        }
    }

    /// Whether this cell comes no later than `other` when the grid is read row
    /// by row from the top, each row from the left.
    pub open spec fn precedes(self, other: Point) -> bool {
        self.y < other.y || (self.y == other.y && self.x <= other.x)
    }

    /// Searches the interior row by row for a cell that the snake does not
    /// cover, and returns the first one, or `None` when every interior cell is
    /// covered.
    pub fn first_free(width: u16, height: u16, snake: &Snake) -> (res: Option<Self>)
        ensures
            match res {
                Some(p) => {
                    &&& p.is_interior(width, height)
                    &&& !snake@.occupies(p)
                    &&& forall|q: Point|
                        q.is_interior(width, height) && !(#[trigger] snake@.occupies(q))
                            ==> p.precedes(q)
                },
                None => !snake@.leaves_room(width, height),
            },
    {
        if width < 3 || height < 3 {
            return None;
        }
        let mut y: u16 = 1;
        while y < height - 1
            invariant
                width >= 3,
                height >= 3,
                1 <= y <= height - 1,
                forall|q: Point|
                    q.is_interior(width, height) && q.y < y ==> #[trigger] snake@.occupies(q),
            decreases height - y,
        {
            let mut x: u16 = 1;
            while x < width - 1
                invariant
                    width >= 3,
                    height >= 3,
                    1 <= y < height - 1,
                    1 <= x <= width - 1,
                    forall|q: Point|
                        q.is_interior(width, height) && q.y < y ==> #[trigger] snake@.occupies(q),
                    forall|q: Point|
                        q.is_interior(width, height) && q.y == y && q.x < x
                            ==> #[trigger] snake@.occupies(q),
                decreases width - x,
            {
                let candidate = snake.free_cell(x, y);
                if candidate.is_some() {
                    return candidate;
                }
                x = x + 1;
            }
            y = y + 1;
        }
        None
    }

    /// Picks a random interior cell of a `width` by `height` grid that the
    /// snake does not cover.
    ///
    /// Cells are drawn at random from the interior, and each draw is put to
    /// [`Snake::free_cell`]: the first one that is off the snake is the
    /// result. After [`SAMPLING_ATTEMPTS`] draws in a row have fallen on the
    /// snake the interior is searched with [`Point::first_free`] instead, so
    /// the call always returns. The result is `None` exactly when
    /// the snake covers the whole interior, which includes a grid too small to
    /// have one.
    pub fn get_random(width: u16, height: u16, snake: &Snake) -> (res: Option<Self>)
        ensures
            match res {
                Some(p) => p.is_interior(width, height) && !snake@.occupies(p),
                None => !snake@.leaves_room(width, height),
            },
    {
        if width < 3 || height < 3 {
            return None;
        }
        let mut attempts: u32 = 0;
        while attempts < SAMPLING_ATTEMPTS
            invariant
                width >= 3,
                height >= 3,
            decreases SAMPLING_ATTEMPTS - attempts,
        {
            let random_x = random_in_range(1, width - 1);
            let random_y = random_in_range(1, height - 1);

            let new_point = snake.free_cell(random_x, random_y);

            if new_point.is_some() {
                return new_point;
            }
            attempts = attempts + 1;
        }
        Point::first_free(width, height, snake)
    }

    /// A single step lands on a neighbouring cell, and stepping back the other
    /// way returns to the start.
    pub proof fn lemma_step_is_adjacent(p: Point, direction: Direction)
        requires
            p.can_shift(direction, 1),
        ensures
            p.shifted(direction, 1).is_adjacent(p),
            p.shifted(direction, 1).can_shift(direction.opposite(), 1),
            p.shifted(direction, 1).shifted(direction.opposite(), 1) == p,
    {
    }

    /// Within the grid, the wall ring and the interior split the cells between
    /// them: a cell is a wall exactly when it is not interior.
    pub proof fn lemma_wall_or_interior(p: Point, width: u16, height: u16)
        requires
            p.x < width,
            p.y < height,
        ensures
            p.is_wall(width, height) <==> !p.is_interior(width, height),
    {
    }
}

} // verus!
