use snake_game::direction::Direction;
use snake_game::frame::{border_ring, count_digits, interior, score_column, SCORE_LABEL_WIDTH};
use snake_game::game::Game;
use snake_game::point::Point;
use snake_game::snake::Snake;

fn pairs(cells: &Vec<Point>) -> Vec<(u16, u16)> {
    cells.iter().map(|p| (p.x, p.y)).collect()
}

#[test]
fn ring_of_a_small_grid() {
    assert_eq!(
        pairs(&border_ring(4, 3)),
        vec![(0, 0), (1, 0), (2, 0), (3, 0), (0, 1), (3, 1), (0, 2), (1, 2), (2, 2), (3, 2)]
    );
}

#[test]
fn ring_of_degenerate_grids() {
    assert_eq!(pairs(&border_ring(0, 0)), vec![]);
    assert_eq!(pairs(&border_ring(3, 0)), vec![]);
    assert_eq!(pairs(&border_ring(0, 3)), vec![]);
    assert_eq!(pairs(&border_ring(1, 1)), vec![(0, 0)]);
    assert_eq!(pairs(&border_ring(3, 1)), vec![(0, 0), (1, 0), (2, 0)]);
    assert_eq!(pairs(&border_ring(1, 3)), vec![(0, 0), (0, 1), (0, 2)]);
    assert_eq!(pairs(&border_ring(2, 2)), vec![(0, 0), (1, 0), (0, 1), (1, 1)]);
}

#[test]
fn interior_of_a_small_grid() {
    assert_eq!(pairs(&interior(5, 4)), vec![(1, 1), (2, 1), (3, 1), (1, 2), (2, 2), (3, 2)]);
    assert_eq!(pairs(&interior(3, 3)), vec![(1, 1)]);
}

#[test]
fn interior_of_degenerate_grids() {
    assert_eq!(pairs(&interior(2, 2)), vec![]);
    assert_eq!(pairs(&interior(2, 9)), vec![]);
    assert_eq!(pairs(&interior(9, 2)), vec![]);
    assert_eq!(pairs(&interior(0, 0)), vec![]);
    assert_eq!(pairs(&interior(1, 5)), vec![]);
    assert_eq!(pairs(&interior(5, 1)), vec![]);
}

#[test]
fn ring_and_interior_split_the_grid() {
    let (width, height) = (9u16, 7u16);
    let ring = border_ring(width, height);
    let inside = interior(width, height);
    assert_eq!(ring.len() + inside.len(), 63);
    for x in 0..width {
        for y in 0..height {
            let p = Point::new(x, y);
            let wall = x == 0 || x == width - 1 || y == 0 || y == height - 1;
            assert_eq!(ring.contains(&p), wall);
            assert_eq!(inside.contains(&p), !wall);
            assert_eq!(Game::is_inside(width, height, &p), !wall);
        }
    }
}

#[test]
fn digits_are_counted() {
    assert_eq!(count_digits(0), 1);
    assert_eq!(count_digits(9), 1);
    assert_eq!(count_digits(10), 2);
    assert_eq!(count_digits(99), 2);
    assert_eq!(count_digits(100), 3);
    assert_eq!(count_digits(65535), 5);
    assert_eq!(count_digits(9_999_999_999_999_999_999), 19);
    assert_eq!(count_digits(10_000_000_000_000_000_000), 20);
    assert_eq!(count_digits(u64::MAX), 20);
}

#[test]
fn score_line_sits_about_the_middle() {
    assert_eq!(SCORE_LABEL_WIDTH, 7);
    assert_eq!(score_column(40, 0), 15);
    assert_eq!(score_column(40, 9), 15);
    assert_eq!(score_column(40, 10), 15);
    assert_eq!(score_column(40, 100), 14);
    assert_eq!(score_column(40, 12345), 13);
    assert_eq!(score_column(41, 0), 15);
    assert_eq!(score_column(u16::MAX, u64::MAX), 32767 - 13 - 1);
}

#[test]
fn score_line_never_starts_left_of_the_grid() {
    assert_eq!(score_column(10, 0), 0);
    assert_eq!(score_column(11, 0), 0);
    assert_eq!(score_column(12, 0), 1);
    assert_eq!(score_column(4, 0), 0);
    assert_eq!(score_column(0, 0), 0);
    assert_eq!(score_column(8, u64::MAX), 0);
}

#[test]
fn render_takes_a_snapshot() {
    let snake = Snake::new(Point::new(3, 2), 2, Direction::Right);
    let mut game = Game::with_snake(5, 4, snake, Point::new(1, 1)).unwrap();
    let frame = game.render();
    assert_eq!(frame.borders, border_ring(5, 4));
    assert_eq!(frame.borders.len(), 14);
    assert_eq!(frame.background, interior(5, 4));
    assert_eq!(pairs(&frame.snake), vec![(3, 2), (2, 2)]);
    assert_eq!(frame.food, Point::new(1, 1));
    assert_eq!(frame.score, 0);
    assert_eq!(frame.score_column, 0);

    game.tick(Some(snake_game::action::Action::Move(Direction::Up)));
    let next = game.render();
    assert_eq!(pairs(&next.snake), vec![(3, 1), (3, 2)]);
    assert_eq!(next.borders, frame.borders);
    assert_eq!(next.background, frame.background);
}

#[test]
fn render_shows_the_score() {
    let snake = Snake::new(Point::new(5, 5), 3, Direction::Right);
    let mut game = Game::with_snake(40, 20, snake, Point::new(6, 5)).unwrap();
    game.tick(None);
    let frame = game.render();
    assert_eq!(frame.score, 1);
    assert_eq!(frame.score_column, 15);
    assert_eq!(frame.food, game.food());
    assert_eq!(pairs(&frame.snake), vec![(6, 5), (5, 5), (4, 5), (3, 5)]);
}
