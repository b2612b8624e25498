//! The game engine: a state machine advanced one tick at a time.

use vstd::prelude::*;
use crate::action::Action;
use crate::direction::Direction;
use crate::frame::{border_cells, border_ring, interior, interior_cells, score_column, score_start, Frame};
use crate::point::Point;
use crate::random::random_in_range;
use crate::snake::{Snake, SnakeView};

verus! {

/// The number of cells a snake has when a session starts.
pub const STARTING_LENGTH: u16 = 3;

/// Whether a session is still being played.
#[derive(Debug, Clone, Copy, PartialEq, Eq, Structural)]
pub enum GameState {
    Running,
    Ended,
}

/// The mathematical value of a [`Game`].
pub struct GameView {
    pub width: u16,
    pub height: u16,
    pub snake: SnakeView,
    pub food: Point,
    pub score: nat,
    pub state: GameState,
}

impl GameView {
    /// What holds of the grid and the snake between ticks: the grid has an
    /// interior, the snake is connected with its head in the interior and no
    /// growth pending, and the score does not exceed the snake's length.
    pub open spec fn board_ok(self) -> bool {
        &&& self.width >= 3
        &&& self.height >= 3
        &&& self.snake.wf()
        &&& !self.snake.growing
        &&& self.snake.head().is_interior(self.width, self.height)
        &&& self.score <= self.snake.cells.len()
    }

    /// What holds of a game between ticks: the board is in order and the food
    /// lies in the interior. Food is always put on a cell that the snake does
    /// not cover, but it may come to lie under the snake: when a meal leaves
    /// no interior cell free, the food stays where it was eaten.
    pub open spec fn wf(self) -> bool {
        &&& self.board_ok()
        &&& self.food.is_interior(self.width, self.height)
    }

    /// The game with the session over.
    pub open spec fn end(self) -> GameView {
        GameView { state: GameState::Ended, ..self }
    }

    /// The game after a request to head in `direction`: a reversal of the
    /// current heading is ignored, anything else is obeyed.
    pub open spec fn steer(self, direction: Direction) -> GameView {
        if direction.opposite() != self.snake.direction {
            GameView { snake: self.snake.turn(direction), ..self }
        } else {
            self
        }
    }

    /// The game after the player's request for this tick has been heard.
    pub open spec fn heed(self, input: Option<Action>) -> GameView {
        match input {
            Some(Action::Quit) => self.end(),
            Some(Action::Move(direction)) => self.steer(direction),
            None => self,
        }
    }

    /// Whether the head's next cell is a wall.
    pub open spec fn hits_wall(self) -> bool {
        self.snake.next_head().is_wall(self.width, self.height)
    }

    /// Whether the head's next cell holds the food.
    pub open spec fn eats(self) -> bool {
        self.snake.next_head() == self.food
    }

    /// The movement of one tick. Running into a wall ends the session with the
    /// snake where it was. Reaching the food lengthens the snake by the new
    /// head and scores a point. Otherwise the snake moves on at its length.
    pub open spec fn advance(self) -> GameView {
        if self.hits_wall() {
            self.end()
        } else if self.eats() {
            GameView { snake: self.snake.grow().slide(), score: self.score + 1, ..self }
        } else {
            GameView { snake: self.snake.slide(), ..self }
        }
    }

    /// One tick, up to the point where eaten food has to be replaced. A
    /// session that is over stays as it is, and a request to quit ends the
    /// session before anything moves.
    pub open spec fn step(self, input: Option<Action>) -> GameView {
        if self.state == GameState::Ended {
            self
        } else if input == Some(Action::Quit) {
            self.end()
        } else {
            self.heed(input).advance()
        }
    }

    /// Whether the tick with this input has the snake eat the food.
    pub open spec fn feeds(self, input: Option<Action>) -> bool {
        &&& self.state == GameState::Running
        &&& input != Some(Action::Quit)
        &&& !self.heed(input).hits_wall()
        &&& self.heed(input).eats()
    }

    /// The game with the food on `point`, or as it is where there is no cell
    /// to put food on.
    pub open spec fn restock(self, candidate: Option<Point>) -> GameView {
        match candidate {
            Some(point) => GameView { food: point, ..self },
            None => self,
        }
    }

    /// Whether `after` is this game with its food replaced: on a free
    /// interior cell where the snake leaves one, whichever it is, and left
    /// as it is where the snake fills the interior.
    pub open spec fn restocked(self, after: GameView) -> bool {
        if self.snake.leaves_room(self.width, self.height) {
            &&& after == self.restock(Some(after.food))
            &&& after.food.is_interior(self.width, self.height)
            &&& !self.snake.occupies(after.food)
        } else {
            after == self
        }
    }

    /// The number of moves the head can make along its heading before its
    /// next cell is a wall.
    pub open spec fn room_ahead(self) -> int {
        match self.snake.direction {
            Direction::Up => self.snake.head().y - 1,
            Direction::Down => self.height - 2 - self.snake.head().y,
            Direction::Left => self.snake.head().x - 1,
            Direction::Right => self.width - 2 - self.snake.head().x,
        }
    }

    /// Whether `after` is a game that one tick with this input can lead to.
    /// Everything about it is fixed but the place of new food after a meal.
    pub open spec fn ticks_to(self, input: Option<Action>, after: GameView) -> bool {
        if self.feeds(input) {
            self.step(input).restocked(after)
        } else {
            after == self.step(input)
        }
    }

    /// Whether `after` is a game that playing these inputs in order, one tick
    /// each, can lead to.
    pub open spec fn plays_to(self, inputs: Seq<Option<Action>>, after: GameView) -> bool
        decreases inputs.len(),
    {
        if inputs.len() == 0 {
            after == self
        } else {
            exists|middle: GameView|
                self.plays_to(inputs.drop_last(), middle) && #[trigger] middle.ticks_to(
                    inputs.last(),
                    after,
                )
        }
    }

    /// A tick leads from a game in order to a game in order, of the same
    /// size, with a score and a snake that are no smaller, and the snake is
    /// longer by as much as the score is higher.
    pub proof fn lemma_tick_monotonic(g: GameView, input: Option<Action>, after: GameView)
        requires
            g.wf(),
            g.ticks_to(input, after),
        ensures
            after.wf(),
            after.width == g.width,
            after.height == g.height,
            g.score <= after.score <= g.score + 1,
            after.snake.cells.len() - g.snake.cells.len() == after.score - g.score,
            g.state == GameState::Ended ==> after == g,
    {
        GameView::lemma_step_keeps_board(g, input);
        GameView::lemma_step_monotonic(g, input);
    }

    /// A running session is over after a tick exactly when the player quit or
    /// the head's next cell was a wall. A meal never ends it, not even one
    /// that leaves no cell free for new food.
    pub proof fn lemma_tick_ends(g: GameView, input: Option<Action>, after: GameView)
        requires
            g.wf(),
            g.state == GameState::Running,
            g.ticks_to(input, after),
        ensures
            after.state == GameState::Ended <==> (input == Some(Action::Quit) || g.heed(
                input,
            ).hits_wall()),
            after.state == GameState::Ended ==> after == g.heed(input).end(),
    {
    }

    /// Food that lies off the snake stays off the snake over a tick, as long
    /// as a meal leaves an interior cell free to put new food on.
    pub proof fn lemma_food_stays_off_snake(g: GameView, input: Option<Action>, after: GameView)
        requires
            g.wf(),
            !g.snake.occupies(g.food),
            g.ticks_to(input, after),
            g.feeds(input) ==> g.step(input).snake.leaves_room(g.width, g.height),
        ensures
            !after.snake.occupies(after.food),
    {
        if g.state == GameState::Running && input != Some(Action::Quit) {
            let h = g.heed(input);
            assert(h.snake.cells == g.snake.cells);
            if !h.hits_wall() && !h.eats() {
                let moved = h.snake.slide().cells;
                assert forall|i: int| 0 <= i < moved.len() implies moved[i] != g.food by {
                    if i > 0 {
                        assert(moved[i] == g.snake.cells[i - 1]);
                    }
                }
            }
        }
    }

    /// However many ticks are played, the grid keeps its size, and the score
    /// and the length of the snake never fall; a session that is over stays
    /// as it is.
    pub proof fn lemma_play_monotonic(g: GameView, inputs: Seq<Option<Action>>, after: GameView)
        requires
            g.wf(),
            g.plays_to(inputs, after),
        ensures
            after.wf(),
            after.width == g.width,
            after.height == g.height,
            g.score <= after.score <= g.score + inputs.len(),
            after.snake.cells.len() - g.snake.cells.len() == after.score - g.score,
            g.state == GameState::Ended ==> after == g,
        decreases inputs.len(),
    {
        if inputs.len() > 0 {
            let middle = choose|middle: GameView|
                g.plays_to(inputs.drop_last(), middle) && #[trigger] middle.ticks_to(
                    inputs.last(),
                    after,
                );
            GameView::lemma_play_monotonic(g, inputs.drop_last(), middle);
            GameView::lemma_tick_monotonic(middle, inputs.last(), after);
        }
    }

    /// Left to itself, a running session goes straight on into the wall. The
    /// snake keeps its heading and makes one move per tick for as many ticks
    /// as there is room ahead, which is less than the longer side of the grid
    /// by three or more; the tick after that ends the session with the head
    /// still next to the wall. Meals on the way change nothing about this.
    pub proof fn lemma_idle_run_hits_wall(
        g: GameView,
        inputs: Seq<Option<Action>>,
        after: GameView,
    )
        requires
            g.wf(),
            g.state == GameState::Running,
            forall|i: int| 0 <= i < inputs.len() ==> inputs[i] is None,
            g.plays_to(inputs, after),
        ensures
            0 <= g.room_ahead() <= g.width - 3 || 0 <= g.room_ahead() <= g.height - 3,
            after.snake.direction == g.snake.direction,
            inputs.len() <= g.room_ahead() ==> {
                &&& after.state == GameState::Running
                &&& after.room_ahead() == g.room_ahead() - inputs.len()
            },
            inputs.len() > g.room_ahead() ==> {
                &&& after.state == GameState::Ended
                &&& after.room_ahead() == 0
            },
        decreases inputs.len(),
    {
        if inputs.len() > 0 {
            let earlier = inputs.drop_last();
            let middle = choose|middle: GameView|
                g.plays_to(earlier, middle) && #[trigger] middle.ticks_to(inputs.last(), after);
            assert forall|i: int| 0 <= i < earlier.len() implies earlier[i] is None by {
                assert(earlier[i] == inputs[i]);
            }
            GameView::lemma_idle_run_hits_wall(g, earlier, middle);
            GameView::lemma_play_monotonic(g, earlier, middle);
            assert(inputs.last() is None);
            if middle.state == GameState::Running && !middle.hits_wall() {
                SnakeView::lemma_slide_preserves_wf(middle.snake);
                SnakeView::lemma_slide_preserves_wf(middle.snake.grow());
            }
        }
    }

    /// Once a session is over, the ticks that are left change nothing: a game
    /// reached by some of the inputs and over by then is reached by all of them.
    pub proof fn lemma_idle_when_over(
        g: GameView,
        inputs: Seq<Option<Action>>,
        played: int,
        after: GameView,
    )
        requires
            0 <= played <= inputs.len(),
            g.plays_to(inputs.take(played), after),
            played < inputs.len() ==> after.state == GameState::Ended,
        ensures
            g.plays_to(inputs, after),
        decreases inputs.len() - played,
    {
        if played < inputs.len() {
            let longer = inputs.take(played + 1);
            assert(longer.drop_last() == inputs.take(played));
            assert(after.ticks_to(longer.last(), after));
            assert(g.plays_to(longer.drop_last(), after));
            assert(g.plays_to(longer, after));
            GameView::lemma_idle_when_over(g, inputs, played + 1, after);
        } else {
            assert(inputs.take(played) == inputs);
        }
    }

    /// A request to reverse leaves the game as it was, and any other request
    /// sets the heading and nothing else.
    pub proof fn lemma_steer(g: GameView, direction: Direction)
        ensures
            g.steer(g.snake.direction.opposite()) == g,
            direction != g.snake.direction.opposite() ==> g.steer(direction)
                == (GameView { snake: g.snake.turn(direction), ..g }),
            g.steer(direction).snake.cells == g.snake.cells,
    {
        Direction::lemma_opposite_involutive(direction);
        Direction::lemma_opposite_involutive(g.snake.direction);
    }

    /// A tick keeps a game in order, whatever the input.
    pub proof fn lemma_step_keeps_board(g: GameView, input: Option<Action>)
        requires
            g.board_ok(),
        ensures
            g.step(input).board_ok(),
    {
        if g.state == GameState::Running && input != Some(Action::Quit) {
            let h = g.heed(input);
            assert(h.snake.cells == g.snake.cells);
            if !h.hits_wall() {
                SnakeView::lemma_slide_preserves_wf(h.snake);
                SnakeView::lemma_slide_preserves_wf(h.snake.grow());
            }
        }
    }

    /// Over a tick the grid keeps its size, the score never falls and rises by
    /// at most one, and the snake never shrinks: it gains one cell exactly
    /// when a point is scored.
    pub proof fn lemma_step_monotonic(g: GameView, input: Option<Action>)
        requires
            g.board_ok(),
        ensures
            g.step(input).width == g.width,
            g.step(input).height == g.height,
            g.step(input).food == g.food,
            g.score <= g.step(input).score <= g.score + 1,
            g.step(input).snake.cells.len() - g.snake.cells.len() == g.step(input).score
                - g.score,
            g.step(input).score == g.score + 1 <==> g.feeds(input),
    {
    }

    /// A session ends on a tick exactly when the player quits or the head's
    /// next cell is a wall; in both cases no cell of the snake moves and the
    /// score stays.
    pub proof fn lemma_step_ends(g: GameView, input: Option<Action>)
        requires
            g.board_ok(),
            g.state == GameState::Running,
        ensures
            g.step(input).state == GameState::Ended <==> (input == Some(Action::Quit) || g.heed(
                input,
            ).hits_wall()),
            input == Some(Action::Quit) ==> g.step(input) == g.end(),
            g.step(input).state == GameState::Ended ==> {
                &&& g.step(input).snake.cells == g.snake.cells
                &&& g.step(input).score == g.score
            },
    {
    }
}

/// A session of the game: the grid, the snake, the food and the score.
pub struct Game {
    width: u16,
    height: u16,
    food: Point,
    snake: Snake,
    score: u64,
    state: GameState,
}

impl View for Game {
    type V = GameView;

    closed spec fn view(&self) -> GameView {
        GameView {
            width: self.width,
            height: self.height,
            snake: self.snake@,
            food: self.food,
            score: self.score as nat,
            state: self.state,
        }
    }
}

/// The heading that a roll of a four-sided die stands for.
pub open spec fn heading_for(roll: u16) -> Direction {
    if roll == 0 {
        Direction::Down
    } else if roll == 1 {
        Direction::Left
    } else if roll == 2 {
        Direction::Right
    } else {
        Direction::Up
    }
}

/// Turns a roll of a four-sided die into a heading.
pub fn starting_direction(roll: u16) -> (res: Direction)
    ensures
        res == heading_for(roll),
{
    match roll {
        0 => Direction::Down,
        1 => Direction::Left,
        2 => Direction::Right,
        _ => Direction::Up,
    }
}

impl Game {
    /// Starts a session on a `width` by `height` grid: a snake of
    /// [`STARTING_LENGTH`] cells with its head on the middle of the grid and a
    /// random heading, food on a random free interior cell, and no points.
    /// The grid must be at least four cells each way, so that the snake fits.
    pub fn new(width: u16, height: u16) -> (res: Self)
        requires
            width >= 4,
            height >= 4,
        ensures
            res@.wf(),
            res@.width == width,
            res@.height == height,
            res@.score == 0,
            res@.state == GameState::Running,
            !res@.snake.occupies(res@.food),
            res@.snake == SnakeView::trailing(
                Point { x: width / 2, y: height / 2 },
                STARTING_LENGTH,
                res@.snake.direction,
            ),
    {
        let starting_point = Point::new(width / 2, height / 2);
        let starting_direction = starting_direction(random_in_range(0, 4));

        let snake = Snake::new(starting_point, STARTING_LENGTH, starting_direction);
        proof {
            SnakeView::lemma_trailing_shape(starting_point, STARTING_LENGTH, starting_direction);
            let corner = Point { x: 1, y: 1 };
            assert(corner.is_interior(width, height));
            assert(!snake@.occupies(corner));
        }

        let food = Point::get_random(width, height, &snake);

        Game { width, height, food: food.unwrap(), snake, score: 0, state: GameState::Running }
    }

    /// Whether a game can be set up from these parts: the grid has an
    /// interior, the snake is connected with no growth pending and its head in
    /// the interior, and the food lies in the interior off the snake.
    pub open spec fn can_set_up(width: u16, height: u16, snake: SnakeView, food: Point) -> bool {
        &&& width >= 3
        &&& height >= 3
        &&& snake.wf()
        &&& !snake.growing
        &&& snake.head().is_interior(width, height)
        &&& food.is_interior(width, height)
        &&& !snake.occupies(food)
    }

    /// Sets up a running session from a given snake and food position, with
    /// no points scored. Returns `None` where the parts do not make a game.
    pub fn with_snake(width: u16, height: u16, snake: Snake, food: Point) -> (res: Option<Self>)
        ensures
            res is Some <==> Game::can_set_up(width, height, snake@, food),
            res matches Some(game) ==> game@ == (GameView {
                width,
                height,
                snake: snake@,
                food,
                score: 0,
                state: GameState::Running,
            }) && game@.wf(),
    {
        if width < 3 || height < 3 {
            return None;
        }
        if !snake.is_well_formed() || snake.is_growing() {
            return None;
        }
        let head = snake.cell(0);
        if !Game::is_inside(width, height, &head) || !Game::is_inside(width, height, &food) {
            return None;
        }
        if snake.occupies(&food) {
            return None;
        }
        Some(Game { width, height, food, snake, score: 0, state: GameState::Running })
    }

    /// Whether `point` lies strictly inside the wall ring of a `width` by
    /// `height` grid.
    pub fn is_inside(width: u16, height: u16, point: &Point) -> (res: bool)
        ensures
            res == point.is_interior(width, height),
    {
        width >= 3 && height >= 3 && 1 <= point.x && point.x <= width - 2 && 1 <= point.y
            && point.y <= height - 2
    }

    /// The number of columns of the grid.
    pub fn width(&self) -> (res: u16)
        ensures
            res == self@.width,
    {
        self.width
    }

    /// The number of rows of the grid.
    pub fn height(&self) -> (res: u16)
        ensures
            res == self@.height,
    {
        self.height
    }

    /// The cell that holds the food.
    pub fn food(&self) -> (res: Point)
        ensures
            res == self@.food,
    {
        self.food
    }

    /// The snake.
    pub fn snake(&self) -> (res: &Snake)
        ensures
            res@ == self@.snake,
    {
        &self.snake
    }

    /// The number of times the snake has eaten.
    pub fn score(&self) -> (res: u64)
        ensures
            res == self@.score,
    {
        self.score
    }

    /// Whether the session is still being played.
    pub fn state(&self) -> (res: GameState)
        ensures
            res == self@.state,
    {
        self.state
    }

    /// Whether `point` is a wall: a cell of the first or last column, or of
    /// the first or last row.
    pub fn is_a_wall(&self, point: &Point) -> (res: bool)
        ensures
            res == point.is_wall(self@.width, self@.height),
    {
        let last_column = self.width > 0 && point.x == self.width - 1;
        let last_row = self.height > 0 && point.y == self.height - 1;
        point.x == 0 || last_column || point.y == 0 || last_row
    }

    /// Whether `point` is the cell that holds the food.
    pub fn is_a_food(&self, point: &Point) -> (res: bool)
        ensures
            res == (*point == self@.food),
    {
        point.x == self.food.x && point.y == self.food.y
    }

    /// Puts the food on the cell found for it, and leaves it where it is when
    /// none was found.
    pub fn place_food(&mut self, candidate: Option<Point>)
        ensures
            final(self)@ == old(self)@.restock(candidate),
    {
        match candidate {
            Some(point) => {
                self.food = point;
            },
            None => {},
        }
    }

    /// Replaces the food by a random free interior cell. Where the snake
    /// covers the whole interior there is no such cell, and the food stays
    /// where it is.
    pub fn generate_food(&mut self)
        ensures
            old(self)@.restocked(final(self)@),
    {
        let candidate = Point::get_random(self.width, self.height, &self.snake);
        self.place_food(candidate);
    }

    /// Takes the snapshot that a renderer draws: the wall ring, the interior,
    /// the snake, the food, and the score with the place to print it.
    pub fn render(&self) -> (res: Frame)
        ensures
            res.borders@ == border_cells(self@.width, self@.height),
            res.background@ == interior_cells(self@.width, self@.height),
            res.snake@ == self@.snake.cells,
            res.food == self@.food,
            res.score == self@.score,
            res.score_column == score_start(self@.width, self@.score),
    {
        Frame {
            borders: border_ring(self.width, self.height),
            background: interior(self.width, self.height),
            snake: self.snake.cells(),
            food: self.food,
            score: self.score,
            score_column: score_column(self.width, self.score),
        }
    }

    /// Plays one tick with the player's request for it, if there was one, and
    /// returns the state the session is in afterwards.
    ///
    /// A request to quit ends the session at once. A request to steer is
    /// obeyed unless it would reverse the snake. Then the head's next cell is
    /// looked at before anything moves: a wall ends the session and leaves
    /// the snake in place; food is eaten, which lengthens the snake by one,
    /// scores a point and puts new food on a random free interior cell;
    /// any other cell is simply moved onto. The new food is chosen after the
    /// snake has moved, so it never lies under the new head; where the snake
    /// then fills the whole interior there is no cell for it, and the food
    /// stays where it was eaten, under the head. Only a wall or a request to
    /// quit ends the session. A session that has ended is left as it is.
    pub fn tick(&mut self, input: Option<Action>) -> (res: GameState)
        requires
            old(self)@.wf(),
        ensures
            final(self)@.wf(),
            res == final(self)@.state,
            old(self)@.ticks_to(input, final(self)@),
    {
        if self.state == GameState::Ended {
            return GameState::Ended;
        }
        match input {
            Some(Action::Quit) => {
                self.state = GameState::Ended;
                return GameState::Ended;
            },
            Some(Action::Move(direction)) => {
                if direction.get_oposite() != self.snake.heading() {
                    self.snake.direction(direction);
                }
            },
            None => {},
        }

        let next_point = self.snake.get_next_point();

        if self.is_a_wall(&next_point) {
            self.state = GameState::Ended;
            return GameState::Ended;
        }
        proof {
            GameView::lemma_step_keeps_board(old(self)@, input);
        }

        if self.is_a_food(&next_point) {
            self.snake.grow();
            self.snake.slide();
            proof {
                self.snake.lemma_length_fits();
            }
            self.score = self.score + 1;
            self.generate_food();
        } else {
            self.snake.slide();
        }
        self.state
    }

    /// Plays the given requests in order, one tick each, and stops early once
    /// the session is over. Returns the state the session is in afterwards.
    pub fn run(&mut self, inputs: &Vec<Option<Action>>) -> (res: GameState)
        requires
            old(self)@.wf(),
        ensures
            final(self)@.wf(),
            res == final(self)@.state,
            old(self)@.plays_to(inputs@, final(self)@),
    {
        let mut played: usize = 0;
        while played < inputs.len() && self.state == GameState::Running
            invariant
                played <= inputs@.len(),
                self@.wf(),
                old(self)@.plays_to(inputs@.take(played as int), self@),
            decreases inputs@.len() - played,
        {
            let ghost before = self@;
            self.tick(inputs[played]);
            proof {
                let prefix = inputs@.take(played + 1);
                assert(prefix.drop_last() == inputs@.take(played as int));
                assert(prefix.last() == inputs@[played as int]);
                assert(old(self)@.plays_to(prefix.drop_last(), before));
                assert(before.ticks_to(prefix.last(), self@));
            }
            played = played + 1;
        }
        proof {
            GameView::lemma_idle_when_over(old(self)@, inputs@, played as int, self@);
        }
        self.state
    }
}

} // verus!
