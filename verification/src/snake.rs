//! The snake: an ordered body of cells, a heading, and a pending-growth mark.

use std::collections::VecDeque;
use vstd::prelude::*;
use crate::direction::Direction;
use crate::point::Point;

verus! {

/// The mathematical value of a [`Snake`].
pub struct SnakeView {
    /// The body, head first.
    pub cells: Seq<Point>,
    /// The heading.
    pub direction: Direction,
    /// Whether the next move keeps the tail in place.
    pub growing: bool,
}

impl SnakeView {
    /// A body is never empty, and each cell shares an edge with the one after it.
    pub open spec fn wf(self) -> bool {
        &&& self.cells.len() > 0
        &&& forall|i: int|
            0 <= i < self.cells.len() - 1 ==> (#[trigger] self.cells[i]).is_adjacent(
                self.cells[i + 1],
            )
    }

    /// The snake of `length` cells whose head is `start` and whose body trails
    /// away from the heading, one cell per step. A length of zero still yields
    /// the head.
    pub open spec fn trailing(start: Point, length: u16, direction: Direction) -> SnakeView {
        SnakeView {
            cells: Seq::new(
                if length == 0 { 1nat } else { length as nat },
                |i: int| start.shifted(direction.opposite(), i as u16),
            ),
            direction,
            growing: false,
        }
    }

    pub open spec fn head(self) -> Point {
        self.cells[0]
    }

    /// Whether the head can take one step along the heading without leaving
    /// the coordinate range.
    pub open spec fn can_advance(self) -> bool {
        self.head().can_shift(self.direction, 1)
    }

    /// The cell the head would move to.
    pub open spec fn next_head(self) -> Point {
        self.head().shifted(self.direction, 1)
    }

    pub open spec fn occupies(self, point: Point) -> bool {
        self.cells.contains(point)
    }

    /// Whether some interior cell of a `width` by `height` grid is not covered
    /// by the body.
    pub open spec fn leaves_room(self, width: u16, height: u16) -> bool {
        exists|p: Point| p.is_interior(width, height) && !(#[trigger] self.occupies(p))
    }

    /// The snake with growth pending.
    pub open spec fn grow(self) -> SnakeView {
        SnakeView { growing: true, ..self }
    }

    /// The snake heading in `direction`.
    pub open spec fn turn(self, direction: Direction) -> SnakeView {
        SnakeView { direction, ..self }
    }

    /// The snake after one move: a new head in front, the tail dropped unless
    /// growth was pending, and the pending mark cleared.
    pub open spec fn slide(self) -> SnakeView {
        SnakeView {
            cells: seq![self.next_head()] + if self.growing {
                self.cells
            } else {
                self.cells.drop_last()
            },
            direction: self.direction,
            growing: false,
        }
    }

    /// A new snake has as many cells as asked for, the head on the starting
    /// cell, and every further cell one step behind the one before it, away
    /// from the heading.
    pub proof fn lemma_trailing_shape(start: Point, length: u16, direction: Direction)
        requires
            length >= 1,
            start.can_shift(direction.opposite(), (length - 1) as u16),
        ensures
            ({
                let s = SnakeView::trailing(start, length, direction);
                &&& s.cells.len() == length
                &&& s.head() == start
                &&& s.direction == direction
                &&& !s.growing
                &&& s.wf()
                &&& forall|i: int|
                    0 <= i < length - 1 ==> (#[trigger] s.cells[i]).can_shift(
                        direction.opposite(),
                        1,
                    ) && s.cells[i + 1] == s.cells[i].shifted(direction.opposite(), 1)
            }),
    {
    }

    /// A move without pending growth keeps the length. A move with growth
    /// pending adds exactly one cell and clears the mark, so the move after it
    /// keeps the length again. Marking growth twice is the same as marking it once.
    pub proof fn lemma_slide_length(s: SnakeView)
        requires
            s.wf(),
        ensures
            !s.growing ==> s.slide().cells.len() == s.cells.len(),
            s.grow().slide().cells.len() == s.cells.len() + 1,
            !s.grow().slide().growing,
            s.grow().slide().slide().cells.len() == s.cells.len() + 1,
            s.grow().grow() == s.grow(),
    {
    }

    /// A move keeps the body connected, and the old cells stay in their order
    /// behind the new head.
    pub proof fn lemma_slide_preserves_wf(s: SnakeView)
        requires
            s.wf(),
            s.can_advance(),
        ensures
            s.slide().wf(),
            s.slide().head() == s.next_head(),
            forall|i: int|
                1 <= i < s.slide().cells.len() ==> #[trigger] s.slide().cells[i] == s.cells[i - 1],
    {
        let t = s.slide();
        Point::lemma_step_is_adjacent(s.head(), s.direction);
        assert forall|i: int| 0 <= i < t.cells.len() - 1 implies (#[trigger] t.cells[i]).is_adjacent(
            t.cells[i + 1],
        ) by {
            if i >= 1 {
                assert(t.cells[i] == s.cells[i - 1]);
                assert(t.cells[i + 1] == s.cells[i]);
                assert(s.cells[i - 1].is_adjacent(s.cells[i - 1 + 1]));
            } else {
                assert(t.cells[0] == s.next_head());
                assert(t.cells[1] == s.cells[0]);
            }
        }
    }
}

/// The snake. `body` holds its cells head first, `direction` is its heading.
pub struct Snake {
    pub body: VecDeque<Point>,
    pub direction: Direction,
    growing: bool,
}

impl View for Snake {
    type V = SnakeView;

    closed spec fn view(&self) -> SnakeView {
        SnakeView { cells: self.body@, direction: self.direction, growing: self.growing }
    }
}

impl Snake {
    /// Builds a snake of `lenght` cells with its head on `point`, heading in
    /// `direction`, the body trailing behind the head. The cells behind the
    /// head must fit in the coordinate range.
    pub fn new(point: Point, lenght: u16, direction: Direction) -> (res: Self)
        requires
            lenght >= 1 ==> point.can_shift(direction.opposite(), (lenght - 1) as u16),
        ensures
            res@ == SnakeView::trailing(point, lenght, direction),
            res@.wf(),
    {
        let oposite = direction.get_oposite();

        let mut body: VecDeque<Point> = VecDeque::new();
        body.push_back(point);

        let mut count: u16 = 1;
        while count < lenght
            invariant
                1 <= count,
                count <= lenght || count == 1,
                oposite == direction.opposite(),
                lenght >= 1 ==> point.can_shift(oposite, (lenght - 1) as u16),
                body@ == Seq::new(count as nat, |i: int| point.shifted(oposite, i as u16)),
            decreases lenght - count,
        {
            body.push_back(point.get_transformed(&oposite, count));
            count = count + 1;
        }

        let res = Self { body, direction, growing: false };
        assert(res@.cells =~= SnakeView::trailing(point, lenght, direction).cells);
        res
    }

    /// Commits one move: the head advances one cell along the heading and the
    /// tail follows, unless growth is pending, in which case the tail stays
    /// and the mark is cleared.
    pub fn slide(&mut self)
        requires
            old(self)@.wf(),
            old(self)@.can_advance(),
        ensures
            final(self)@ == old(self)@.slide(),
            final(self)@.wf(),
    {
        let head_point = self.body[0];

        let new_point = head_point.get_transformed(&self.direction, 1);

        self.body.push_front(new_point);

        if !self.growing {
            self.body.pop_back();
        } else {
            self.growing = false;
        }
        proof {
            SnakeView::lemma_slide_preserves_wf(old(self)@);
            assert(self@.cells == old(self)@.slide().cells);
        }
    }

    /// Returns the cell the head would move to, leaving the snake as it is.
    pub fn get_next_point(&self) -> (res: Point)
        requires
            self@.wf(),
            self@.can_advance(),
        ensures
            res == self@.next_head(),
    {
        let head = self.body[0];
        head.get_transformed(&self.direction, 1)
    }

    /// Returns the cell the head would move to, or `None` where that step
    /// would leave the coordinate range, as it does from row or column 0
    /// heading outwards. The snake is left as it is.
    pub fn try_next_point(&self) -> (res: Option<Point>)
        requires
            self@.cells.len() > 0,
        ensures
            res == (if self@.can_advance() {
                Some(self@.next_head())
            } else {
                None::<Point>
            }),
    {
        let head = self.body[0];
        head.try_transformed(&self.direction, 1)
    }

    /// Marks growth as pending: the next move will keep the tail.
    pub fn grow(&mut self)
        ensures
            final(self)@ == old(self)@.grow(),
    {
        self.growing = true;
    }

    /// Sets the heading. Nothing is checked here; refusing a reversal is up to
    /// the caller.
    pub fn direction(&mut self, direction: Direction)
        ensures
            final(self)@ == old(self)@.turn(direction),
    {
        self.direction = direction;
    }

    /// The heading.
    pub fn heading(&self) -> (res: Direction)
        ensures
            res == self@.direction,
    {
        self.direction
    }

    /// The body is held in memory, so its length fits the machine's word.
    pub proof fn lemma_length_fits(&self)
        ensures
            self@.cells.len() <= usize::MAX,
    {
        vstd::std_specs::vecdeque::axiom_spec_len(&self.body);
    }

    /// The number of cells in the body.
    pub fn len(&self) -> (res: usize)
        ensures
            res == self@.cells.len(),
    {
        self.body.len()
    }

    /// The cell at position `index` of the body, the head being at position 0.
    pub fn cell(&self, index: usize) -> (res: Point)
        requires
            index < self@.cells.len(),
        ensures
            res == self@.cells[index as int],
    {
        self.body[index]
    }

    /// Decides on a cell drawn for the food: the cell at column `x`, row `y`
    /// if the body does not cover it, and `None` if it does.
    pub fn free_cell(&self, x: u16, y: u16) -> (res: Option<Point>)
        ensures
            res == (if self@.occupies(Point { x, y }) {
                None::<Point>
            } else {
                Some(Point { x, y })
            }),
    {
        let point = Point::new(x, y);
        if self.occupies(&point) {
            None
        } else {
            Some(point)
        }
    }

    /// The cells of the body, head first.
    pub fn cells(&self) -> (res: Vec<Point>)
        ensures
            res@ == self@.cells,
    {
        let mut cells: Vec<Point> = Vec::new();
        let mut index: usize = 0;
        while index < self.body.len()
            invariant
                index <= self.body@.len(),
                cells@ == self.body@.subrange(0, index as int),
            decreases self.body@.len() - index,
        {
            cells.push(self.body[index]);
            index = index + 1;
        }
        assert(self.body@.subrange(0, index as int) == self.body@);
        cells
    }

    /// Whether the body is non-empty and connected, each cell sharing an edge
    /// with the next.
    pub fn is_well_formed(&self) -> (res: bool)
        ensures
            res == self@.wf(),
    {
        let len = self.body.len();
        if len == 0 {
            return false;
        }
        let mut index: usize = 0;
        while index < len - 1
            invariant
                len == self.body@.len(),
                len > 0,
                index <= len - 1,
                forall|i: int| 0 <= i < index ==> (#[trigger] self.body@[i]).is_adjacent(self.body@[i + 1]),
            decreases len - index,
        {
            let here = self.body[index];
            let there = self.body[index + 1];
            if !here.touches(&there) {
                return false;
            }
            index = index + 1;
        }
        true
    }

    /// Whether growth is pending.
    pub fn is_growing(&self) -> (res: bool)
        ensures
            res == self@.growing,
    {
        self.growing
    }

    /// Whether `point` is one of the body's cells.
    pub fn occupies(&self, point: &Point) -> (res: bool)
        ensures
            res == self@.occupies(*point),
    {
        let mut index: usize = 0;
        while index < self.body.len()
            invariant
                index <= self.body@.len(),
                forall|i: int| 0 <= i < index ==> self.body@[i] != *point,
            decreases self.body@.len() - index,
        {
            let cell = self.body[index];
            if cell.x == point.x && cell.y == point.y {
                return true;
            }
            index = index + 1;
        }
        false
    }
}

} // verus!
