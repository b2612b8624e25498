use snake_game::direction::Direction;
use snake_game::point::Point;
use snake_game::snake::Snake;

fn cells(snake: &Snake) -> Vec<(u16, u16)> {
    snake.body.iter().map(|p| (p.x, p.y)).collect()
}

#[test]
fn new_snake_trails_away_from_its_heading() {
    let right = Snake::new(Point::new(5, 5), 3, Direction::Right);
    assert_eq!(cells(&right), vec![(5, 5), (4, 5), (3, 5)]);
    let left = Snake::new(Point::new(5, 5), 3, Direction::Left);
    assert_eq!(cells(&left), vec![(5, 5), (6, 5), (7, 5)]);
    let up = Snake::new(Point::new(5, 5), 3, Direction::Up);
    assert_eq!(cells(&up), vec![(5, 5), (5, 6), (5, 7)]);
    let down = Snake::new(Point::new(5, 5), 3, Direction::Down);
    assert_eq!(cells(&down), vec![(5, 5), (5, 4), (5, 3)]);
}

#[test]
fn new_snake_has_the_length_asked_for() {
    for length in 1..=20u16 {
        let snake = Snake::new(Point::new(30, 30), length, Direction::Up);
        assert_eq!(snake.body.len(), length as usize);
        assert_eq!(snake.len(), length as usize);
        assert_eq!(snake.direction, Direction::Up);
        assert_eq!(snake.heading(), Direction::Up);
        assert!(!snake.is_growing());
        assert!(snake.is_well_formed());
        for (i, p) in snake.body.iter().enumerate() {
            assert_eq!(*p, Point::new(30, 30 + i as u16));
        }
    }
}

#[test]
fn new_snake_of_no_length_is_just_a_head() {
    let snake = Snake::new(Point::new(0, 0), 0, Direction::Right);
    assert_eq!(cells(&snake), vec![(0, 0)]);
    let one = Snake::new(Point::new(0, 0), 1, Direction::Right);
    assert_eq!(cells(&one), vec![(0, 0)]);
}

#[test]
fn new_snake_may_reach_the_edge_of_the_range() {
    let snake = Snake::new(Point::new(2, 7), 3, Direction::Right);
    assert_eq!(cells(&snake), vec![(2, 7), (1, 7), (0, 7)]);
    let other = Snake::new(Point::new(u16::MAX - 1, 7), 2, Direction::Left);
    assert_eq!(cells(&other), vec![(u16::MAX - 1, 7), (u16::MAX, 7)]);
}

#[test]
fn slide_keeps_the_length() {
    let mut snake = Snake::new(Point::new(5, 5), 3, Direction::Right);
    snake.slide();
    assert_eq!(cells(&snake), vec![(6, 5), (5, 5), (4, 5)]);
    snake.slide();
    assert_eq!(cells(&snake), vec![(7, 5), (6, 5), (5, 5)]);
    assert!(!snake.is_growing());
}

#[test]
fn slide_after_grow_adds_one_cell_once() {
    let mut snake = Snake::new(Point::new(5, 5), 3, Direction::Down);
    snake.grow();
    assert!(snake.is_growing());
    assert_eq!(snake.body.len(), 3);
    snake.slide();
    assert!(!snake.is_growing());
    assert_eq!(cells(&snake), vec![(5, 6), (5, 5), (5, 4), (5, 3)]);
    snake.slide();
    assert_eq!(cells(&snake), vec![(5, 7), (5, 6), (5, 5), (5, 4)]);
    assert!(!snake.is_growing());
}

#[test]
fn grow_twice_is_grow_once() {
    let mut snake = Snake::new(Point::new(5, 5), 2, Direction::Left);
    snake.grow();
    snake.grow();
    snake.slide();
    assert_eq!(snake.body.len(), 3);
    snake.slide();
    assert_eq!(snake.body.len(), 3);
}

#[test]
fn a_single_cell_slides_and_grows() {
    let mut snake = Snake::new(Point::new(5, 5), 1, Direction::Up);
    snake.slide();
    assert_eq!(cells(&snake), vec![(5, 4)]);
    snake.grow();
    snake.slide();
    assert_eq!(cells(&snake), vec![(5, 3), (5, 4)]);
}

#[test]
fn next_point_is_a_pure_query() {
    let snake = Snake::new(Point::new(5, 5), 3, Direction::Right);
    let before = cells(&snake);
    let first = snake.get_next_point();
    let second = snake.get_next_point();
    assert_eq!(first, Point::new(6, 5));
    assert_eq!(first, second);
    assert_eq!(cells(&snake), before);
    assert_eq!(snake.direction, Direction::Right);
    assert!(!snake.is_growing());
}

#[test]
fn next_point_follows_the_heading() {
    let mut snake = Snake::new(Point::new(5, 5), 3, Direction::Right);
    snake.direction(Direction::Up);
    assert_eq!(snake.get_next_point(), Point::new(5, 4));
    snake.direction(Direction::Down);
    assert_eq!(snake.get_next_point(), Point::new(5, 6));
    snake.direction(Direction::Left);
    assert_eq!(snake.get_next_point(), Point::new(4, 5));
    assert_eq!(cells(&snake), vec![(5, 5), (4, 5), (3, 5)]);
}

#[test]
fn next_point_can_be_asked_for_next_to_the_edge() {
    let snake = Snake::new(Point::new(1, 1), 1, Direction::Left);
    assert_eq!(snake.get_next_point(), Point::new(0, 1));
    let other = Snake::new(Point::new(1, 1), 1, Direction::Up);
    assert_eq!(other.get_next_point(), Point::new(1, 0));
}

#[test]
fn direction_is_set_without_any_check() {
    let mut snake = Snake::new(Point::new(5, 5), 3, Direction::Right);
    snake.direction(Direction::Left);
    assert_eq!(snake.direction, Direction::Left);
    assert_eq!(snake.heading(), Direction::Left);
    assert_eq!(cells(&snake), vec![(5, 5), (4, 5), (3, 5)]);
}

#[test]
fn turning_bends_the_body() {
    let mut snake = Snake::new(Point::new(5, 5), 3, Direction::Right);
    snake.direction(Direction::Up);
    snake.slide();
    assert_eq!(cells(&snake), vec![(5, 4), (5, 5), (4, 5)]);
    assert!(snake.is_well_formed());
}

#[test]
fn occupies_tells_body_cells_from_others() {
    let snake = Snake::new(Point::new(5, 5), 3, Direction::Right);
    assert!(snake.occupies(&Point::new(5, 5)));
    assert!(snake.occupies(&Point::new(4, 5)));
    assert!(snake.occupies(&Point::new(3, 5)));
    assert!(!snake.occupies(&Point::new(2, 5)));
    assert!(!snake.occupies(&Point::new(6, 5)));
    assert!(!snake.occupies(&Point::new(5, 4)));
}

#[test]
fn cells_are_listed_head_first() {
    let mut snake = Snake::new(Point::new(5, 5), 3, Direction::Right);
    snake.slide();
    assert_eq!(
        snake.cells(),
        vec![Point::new(6, 5), Point::new(5, 5), Point::new(4, 5)]
    );
    assert_eq!(snake.cell(0), Point::new(6, 5));
    assert_eq!(snake.cell(2), Point::new(4, 5));
}

#[test]
fn a_torn_body_is_not_well_formed() {
    let mut snake = Snake::new(Point::new(5, 5), 3, Direction::Right);
    snake.body.push_back(Point::new(1, 5));
    assert!(!snake.is_well_formed());
    snake.body.pop_back();
    assert!(snake.is_well_formed());
    snake.body.push_back(Point::new(2, 6));
    assert!(!snake.is_well_formed());
    snake.body.clear();
    assert!(!snake.is_well_formed());
}

#[test]
fn try_next_point_answers_for_the_step_off_the_range() {
    let left = Snake::new(Point::new(0, 5), 1, Direction::Left);
    assert_eq!(left.try_next_point(), None);
    let up = Snake::new(Point::new(5, 0), 1, Direction::Up);
    assert_eq!(up.try_next_point(), None);
    let right = Snake::new(Point::new(u16::MAX, 5), 1, Direction::Right);
    assert_eq!(right.try_next_point(), None);
    let down = Snake::new(Point::new(5, u16::MAX), 1, Direction::Down);
    assert_eq!(down.try_next_point(), None);
    assert_eq!(cells(&left), vec![(0, 5)]);
    assert_eq!(left.direction, Direction::Left);
}

#[test]
fn try_next_point_agrees_with_next_point() {
    let mut snake = Snake::new(Point::new(5, 5), 3, Direction::Right);
    for heading in [Direction::Up, Direction::Down, Direction::Left, Direction::Right] {
        snake.direction(heading);
        assert_eq!(snake.try_next_point(), Some(snake.get_next_point()));
    }
    assert_eq!(cells(&snake), vec![(5, 5), (4, 5), (3, 5)]);
    assert!(!snake.is_growing());

    let corner = Snake::new(Point::new(0, 0), 1, Direction::Right);
    assert_eq!(corner.try_next_point(), Some(Point::new(1, 0)));
    let edge = Snake::new(Point::new(1, 0), 1, Direction::Left);
    assert_eq!(edge.try_next_point(), Some(Point::new(0, 0)));
}

#[test]
fn free_cell_accepts_what_is_off_the_body() {
    let snake = Snake::new(Point::new(5, 5), 3, Direction::Right);
    assert_eq!(snake.free_cell(6, 5), Some(Point::new(6, 5)));
    assert_eq!(snake.free_cell(5, 4), Some(Point::new(5, 4)));
    assert_eq!(snake.free_cell(0, 0), Some(Point::new(0, 0)));
    assert_eq!(snake.free_cell(5, 5), None);
    assert_eq!(snake.free_cell(4, 5), None);
    assert_eq!(snake.free_cell(3, 5), None);
    assert_eq!(snake.free_cell(2, 5), Some(Point::new(2, 5)));
}
