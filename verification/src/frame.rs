//! What a renderer is handed each tick: the cells to draw, layer by layer.

use vstd::prelude::*;
use crate::point::Point;

verus! {

/// The number of characters in front of the number on the score line.
pub const SCORE_LABEL_WIDTH: u16 = 7;

/// A snapshot of a game for drawing. The layers are meant to be drawn in the
/// order of the fields, each over the ones before it.
pub struct Frame {
    /// The wall ring, row by row from the top, each row from the left.
    pub borders: Vec<Point>,
    /// The interior, row by row from the top, each row from the left.
    pub background: Vec<Point>,
    /// The cells of the snake, head first.
    pub snake: Vec<Point>,
    /// The cell that holds the food.
    pub food: Point,
    /// The score to print on the top row.
    pub score: u64,
    /// The column at which the score line starts.
    pub score_column: u16,
}

/// The first `count` cells of row `row`, from the left.
pub open spec fn row_prefix(row: u16, count: nat) -> Seq<Point> {
    Seq::new(count, |c: int| Point { x: c as u16, y: row })
}

/// The wall cells of row `row` of a `width` by `height` grid, from the left:
/// the whole row at the top and at the bottom, the two ends of the row in
/// between.
pub open spec fn border_row(width: u16, height: u16, row: u16) -> Seq<Point> {
    if row == 0 || row == height - 1 {
        row_prefix(row, width as nat)
    } else if width >= 2 {
        seq![Point { x: 0, y: row }, Point { x: (width - 1) as u16, y: row }]
    } else {
        row_prefix(row, width as nat)
    }
}

/// The wall cells of the first `rows` rows of a `width` by `height` grid.
pub open spec fn border_rows(width: u16, height: u16, rows: nat) -> Seq<Point>
    decreases rows,
{
    if rows == 0 {
        Seq::empty()
    } else {
        border_rows(width, height, (rows - 1) as nat) + border_row(
            width,
            height,
            (rows - 1) as u16,
        )
    }
}

/// The wall ring of a `width` by `height` grid.
pub open spec fn border_cells(width: u16, height: u16) -> Seq<Point> {
    border_rows(width, height, height as nat)
}

/// The interior cells of row `row` of a grid `width` cells wide, from the left.
pub open spec fn interior_row(width: u16, row: u16) -> Seq<Point> {
    Seq::new(
        if width >= 2 { (width - 2) as nat } else { 0 },
        |c: int| Point { x: (c + 1) as u16, y: row },
    )
}

/// The interior cells of rows 1 to `rows` of a grid `width` cells wide.
pub open spec fn interior_rows(width: u16, rows: nat) -> Seq<Point>
    decreases rows,
{
    if rows == 0 {
        Seq::empty()
    } else {
        interior_rows(width, (rows - 1) as nat) + interior_row(width, rows as u16)
    }
}

/// The interior of a `width` by `height` grid.
pub open spec fn interior_cells(width: u16, height: u16) -> Seq<Point> {
    interior_rows(width, if height >= 2 { (height - 2) as nat } else { 0 })
}

/// The number of decimal digits of `n`.
pub open spec fn decimal_width(n: nat) -> nat
    decreases n,
{
    if n < 10 {
        1
    } else {
        1 + decimal_width(n / 10)
    }
}

/// The column at which the score line starts so that it sits about the middle
/// of the top row: half the width, less half the length of the line, less
/// one, and never left of the first column.
pub open spec fn score_start(width: u16, score: nat) -> int {
    let start = width / 2 - (SCORE_LABEL_WIDTH + decimal_width(score)) / 2 - 1;
    if start < 0 {
        0
    } else {
        start
    }
}

/// A cell is listed in two lists put end to end exactly when it is listed in
/// one of them.
proof fn lemma_concat_contains(first: Seq<Point>, second: Seq<Point>, p: Point)
    ensures
        (first + second).contains(p) <==> (first.contains(p) || second.contains(p)),
{
    if first.contains(p) {
        let i = choose|i: int| 0 <= i < first.len() && first[i] == p;
        assert((first + second)[i] == p);
    }
    if second.contains(p) {
        let i = choose|i: int| 0 <= i < second.len() && second[i] == p;
        assert((first + second)[first.len() + i] == p);
    }
}

/// The cells listed as the wall ring are the cells of the grid that are walls.
pub proof fn lemma_border_rows_are_walls(width: u16, height: u16, rows: nat, p: Point)
    requires
        rows <= height,
    ensures
        border_rows(width, height, rows).contains(p) <==> (p.x < width && p.y < rows && p.is_wall(
            width,
            height,
        )),
    decreases rows,
{
    if rows > 0 {
        let before = border_rows(width, height, (rows - 1) as nat);
        let row = (rows - 1) as u16;
        let last = border_row(width, height, row);
        lemma_border_rows_are_walls(width, height, (rows - 1) as nat, p);
        assert(last.contains(p) <==> (p.x < width && p.y == row && p.is_wall(width, height))) by {
            if p.x < width && p.y == row && p.is_wall(width, height) {
                if row == 0 || row == height - 1 || width < 2 {
                    assert(last[p.x as int] == p);
                } else if p.x == 0 {
                    assert(last[0] == p);
                } else {
                    assert(last[1] == p);
                }
            }
        }
        lemma_concat_contains(before, last, p);
    }
}

/// The cells listed as the interior are the interior cells of the grid.
pub proof fn lemma_interior_rows_are_interior(width: u16, height: u16, rows: nat, p: Point)
    requires
        rows + 2 <= height,
    ensures
        interior_rows(width, rows).contains(p) <==> (p.is_interior(width, height) && p.y <= rows),
    decreases rows,
{
    if rows > 0 {
        let before = interior_rows(width, (rows - 1) as nat);
        let last = interior_row(width, rows as u16);
        lemma_interior_rows_are_interior(width, height, (rows - 1) as nat, p);
        assert(last.contains(p) <==> (p.is_interior(width, height) && p.y == rows)) by {
            if p.is_interior(width, height) && p.y == rows {
                assert(last[p.x - 1] == p);
            }
        }
        lemma_concat_contains(before, last, p);
    }
}

/// A frame lists every wall cell of the grid as border and every interior
/// cell as background, and nothing else.
pub proof fn lemma_layers_cover_grid(width: u16, height: u16, p: Point)
    ensures
        border_cells(width, height).contains(p) <==> (p.x < width && p.y < height && p.is_wall(
            width,
            height,
        )),
        interior_cells(width, height).contains(p) <==> p.is_interior(width, height),
{
    lemma_border_rows_are_walls(width, height, height as nat, p);
    if height >= 2 {
        lemma_interior_rows_are_interior(width, height, (height - 2) as nat, p);
    }
}

/// Lists the wall ring of a `width` by `height` grid.
pub fn border_ring(width: u16, height: u16) -> (res: Vec<Point>)
    ensures
        res@ == border_cells(width, height),
{
    let mut cells: Vec<Point> = Vec::new();
    let mut row: u16 = 0;
    while row < height
        invariant
            row <= height,
            cells@ == border_rows(width, height, row as nat),
        decreases height - row,
    {
        let ghost before = cells@;
        if row == 0 || row == height - 1 || width < 2 {
            let mut col: u16 = 0;
            while col < width
                invariant
                    col <= width,
                    cells@ == before + row_prefix(row, col as nat),
                decreases width - col,
            {
                cells.push(Point::new(col, row));
                col = col + 1;
            }
        } else {
            cells.push(Point::new(0, row));
            cells.push(Point::new(width - 1, row));
        }
        assert(cells@ == before + border_row(width, height, row));
        row = row + 1;
    }
    cells
}

/// Lists the interior of a `width` by `height` grid.
pub fn interior(width: u16, height: u16) -> (res: Vec<Point>)
    ensures
        res@ == interior_cells(width, height),
{
    let mut cells: Vec<Point> = Vec::new();
    if width < 2 || height < 2 {
        proof {
            if height >= 2 {
                lemma_no_interior(width, (height - 2) as nat);
            }
        }
        return cells;
    }
    let mut row: u16 = 1;
    while row < height - 1
        invariant
            width >= 2,
            height >= 2,
            1 <= row <= height - 1,
            cells@ == interior_rows(width, (row - 1) as nat),
        decreases height - row,
    {
        let ghost before = cells@;
        let mut col: u16 = 1;
        while col < width - 1
            invariant
                width >= 2,
                1 <= col <= width - 1,
                cells@ == before + Seq::new((col - 1) as nat, |c: int| Point { x: (c + 1) as u16, y: row }),
            decreases width - col,
        {
            cells.push(Point::new(col, row));
            col = col + 1;
        }
        assert(cells@ == before + interior_row(width, row));
        row = row + 1;
    }
    cells
}

/// A grid less than two cells wide has no interior.
proof fn lemma_no_interior(width: u16, rows: nat)
    requires
        width < 2,
    ensures
        interior_rows(width, rows) == Seq::<Point>::empty(),
    decreases rows,
{
    if rows > 0 {
        lemma_no_interior(width, (rows - 1) as nat);
    }
}

/// Counts the decimal digits of `n`.
pub fn count_digits(n: u64) -> (res: u16)
    ensures
        res == decimal_width(n as nat),
        1 <= res <= 20,
{
    let mut rest: u64 = n;
    let mut digits: u16 = 1;
    assert(pow10(0) == 1);
    assert(rest * pow10(0) == rest) by (nonlinear_arith)
        requires
            pow10(0) == 1,
    ;
    while rest >= 10
        invariant
            1 <= digits <= 20,
            rest * pow10((digits - 1) as nat) <= u64::MAX,
            decimal_width(n as nat) == digits - 1 + decimal_width(rest as nat),
        decreases rest,
    {
        proof {
            lemma_pow10_step(rest, (digits - 1) as nat);
        }
        rest = rest / 10;
        digits = digits + 1;
    }
    digits
}

/// Ten to the power of `exponent`.
spec fn pow10(exponent: nat) -> nat
    decreases exponent,
{
    if exponent == 0 {
        1
    } else {
        10 * pow10((exponent - 1) as nat)
    }
}

/// Dropping a digit from a number leaves room for one more factor of ten
/// below the same bound, and a number of two or more digits cannot be
/// multiplied by ten to the nineteenth without leaving 64 bits.
proof fn lemma_pow10_step(rest: u64, exponent: nat)
    requires
        rest >= 10,
        rest * pow10(exponent) <= u64::MAX,
    ensures
        (rest / 10) * pow10(exponent + 1) <= u64::MAX,
        exponent < 19,
{
    let p = pow10(exponent);
    assert(pow10(exponent + 1) == 10 * p);
    assert((rest / 10) * (10 * p) <= rest * p) by (nonlinear_arith)
        requires
            rest >= 0,
            p >= 0,
    ;
    if exponent >= 19 {
        lemma_pow10_grows(19, exponent);
        assert(pow10(19) == 10_000_000_000_000_000_000) by {
            reveal_with_fuel(pow10, 20);
        }
        assert(rest * p >= 10 * pow10(19)) by (nonlinear_arith)
            requires
                rest >= 10,
                p >= pow10(19),
        ;
    }
}

/// Powers of ten grow with the exponent.
proof fn lemma_pow10_grows(low: nat, high: nat)
    requires
        low <= high,
    ensures
        pow10(low) <= pow10(high),
    decreases high,
{
    if low < high {
        lemma_pow10_grows(low, (high - 1) as nat);
    }
}

/// Computes the column at which the score line starts.
pub fn score_column(width: u16, score: u64) -> (res: u16)
    ensures
        res == score_start(width, score as nat),
{
    let half_line = (SCORE_LABEL_WIDTH + count_digits(score)) / 2;
    let half_width = width / 2;
    if half_width > half_line {
        half_width - half_line - 1
    } else {
        0
    }
}

} // verus!
