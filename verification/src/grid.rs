//! The glyph grid: the rows of text that draw the tree, and the cells of its
//! canopy.
//!
//! A grid is a `Vec<String>`; contracts speak of it through its deep view, a
//! sequence of rows, each a sequence of characters. A cell is named by its
//! column `x` and its row `y`, both counted from zero in characters.

use vstd::prelude::*;

verus! {

/// The glyph that marks a cell of the canopy, where an ornament may hang.
pub const CANOPY_GLYPH: char = '*';

/// Whether column `x` of row `y` is a cell of the grid and shows the canopy
/// glyph.
pub open spec fn is_canopy(rows: Seq<Seq<char>>, x: int, y: int) -> bool {
    &&& 0 <= y < rows.len()
    &&& 0 <= x < rows[y].len()
    &&& rows[y][x] == CANOPY_GLYPH
}

/// The width of the grid: the length of its longest row, 0 without rows.
pub open spec fn grid_width(rows: Seq<Seq<char>>) -> nat
    decreases rows.len(),
{
    if rows.len() == 0 {
        0
    } else {
        let above = grid_width(rows.drop_last());
        if rows.last().len() > above {
            rows.last().len()
        } else {
            above
        }
    }
}

/// Whether every cell of the grid has coordinates that fit in 16 bits, as
/// the coordinates of a terminal do.
pub open spec fn fits_terminal(rows: Seq<Seq<char>>) -> bool {
    rows.len() <= u16::MAX && grid_width(rows) <= u16::MAX
}

/// The test that keeps the canopy cells of a row.
pub open spec fn on_canopy(row: Seq<char>) -> spec_fn((u16, u16)) -> bool {
    |cell: (u16, u16)| 0 <= cell.0 < row.len() && row[cell.0 as int] == CANOPY_GLYPH
}

/// The cells in the first `n` columns of row `y`, from left to right.
pub open spec fn row_span(y: int, n: int) -> Seq<(u16, u16)> {
    Seq::new(n as nat, |x: int| (x as u16, y as u16))
}

/// The canopy cells of row `y`, which reads `row`, from left to right.
pub open spec fn row_cells(row: Seq<char>, y: int) -> Seq<(u16, u16)> {
    row_span(y, row.len() as int).filter(on_canopy(row))
}

/// The canopy cells of the first `n` rows, row by row from the top.
pub open spec fn cells_above(rows: Seq<Seq<char>>, n: int) -> Seq<(u16, u16)> {
    Seq::new(n as nat, |y: int| row_cells(rows[y], y)).flatten()
}

/// The canopy cells of the grid in reading order: row by row from the top,
/// each row from left to right.
pub open spec fn canopy_cells(rows: Seq<Seq<char>>) -> Seq<(u16, u16)> {
    cells_above(rows, rows.len() as int)
}

/// The width of a grid is the length of one of its rows, and no row is
/// longer.
pub proof fn lemma_grid_width_is_max(rows: Seq<Seq<char>>)
    ensures
        forall|y: int| 0 <= y < rows.len() ==> (#[trigger] rows[y]).len() <= grid_width(rows),
        rows.len() > 0 ==> exists|y: int|
            0 <= y < rows.len() && (#[trigger] rows[y]).len() == grid_width(rows),
        rows.len() == 0 ==> grid_width(rows) == 0,
    decreases rows.len(),
{
    if rows.len() > 0 {
        let above = rows.drop_last();
        lemma_grid_width_is_max(above);
        assert forall|y: int| 0 <= y < rows.len() implies (#[trigger] rows[y]).len() <= grid_width(
            rows,
        ) by {
            if y < above.len() {
                assert(rows[y] == above[y]);
            }
        }
        if rows.last().len() > grid_width(above) || above.len() == 0 {
            assert(rows[rows.len() - 1].len() == grid_width(rows));
        } else {
            let y = choose|y: int| 0 <= y < above.len() && (#[trigger] above[y]).len() == grid_width(above);
            assert(rows[y] == above[y]);
        }
    }
}

/// The width and the height of the grid, where both fit in 16 bits.
pub fn dimensions(grid: &Vec<String>) -> (dims: Option<(u16, u16)>)
    ensures
        dims.is_some() == fits_terminal(grid.deep_view()),
        dims matches Some((width, height)) ==> {
            &&& width == grid_width(grid.deep_view())
            &&& height == grid.deep_view().len()
        },
{
    let ghost rows = grid.deep_view();
    if grid.len() > u16::MAX as usize {
        return None;
    }
    let mut width: usize = 0;
    let mut y: usize = 0;
    while y < grid.len()
        invariant
            y <= grid.len(),
            rows == grid.deep_view(),
            width == grid_width(rows.take(y as int)),
        decreases grid.len() - y,
    {
        let length = grid[y].as_str().unicode_len();
        proof {
            assert(rows.take(y + 1).drop_last() =~= rows.take(y as int));
            assert(rows.take(y + 1).last() == rows[y as int]);
        }
        if length > width {
            width = length;
        }
        y = y + 1;
    }
    proof {
        assert(rows.take(grid.len() as int) =~= rows);
    }
    if width > u16::MAX as usize {
        None
    } else {
        Some((width as u16, grid.len() as u16))
    }
}

/// Reading one more column of a row adds its cell where that cell shows the
/// canopy glyph, and nothing otherwise.
pub proof fn lemma_row_span_step(row: Seq<char>, y: int, x: int)
    requires
        0 <= x,
    ensures
        row_span(y, x + 1).filter(on_canopy(row)) == if on_canopy(row)((x as u16, y as u16)) {
            row_span(y, x).filter(on_canopy(row)).push((x as u16, y as u16))
        } else {
            row_span(y, x).filter(on_canopy(row))
        },
{
    assert(row_span(y, x + 1) =~= row_span(y, x).push((x as u16, y as u16)));
    row_span(y, x).lemma_filter_push((x as u16, y as u16), on_canopy(row));
}

/// Reading one more row adds its canopy cells behind those of the rows
/// above.
pub proof fn lemma_cells_above_step(rows: Seq<Seq<char>>, n: int)
    requires
        0 <= n,
    ensures
        cells_above(rows, n + 1) == cells_above(rows, n) + row_cells(rows[n], n),
{
    let per_row = |y: int| row_cells(rows[y], y);
    assert(Seq::new((n + 1) as nat, per_row) =~= Seq::new(n as nat, per_row).push(per_row(n)));
    Seq::new(n as nat, per_row).lemma_flatten_push(per_row(n));
}

/// Reading further along a row never loses a canopy cell.
pub proof fn lemma_row_span_grows(row: Seq<char>, y: int, from: int, to: int)
    requires
        0 <= from <= to,
    ensures
        row_span(y, from).filter(on_canopy(row)).len() <= row_span(y, to).filter(
            on_canopy(row),
        ).len(),
    decreases to - from,
{
    if from < to {
        lemma_row_span_grows(row, y, from, to - 1);
        lemma_row_span_step(row, y, to - 1);
    }
}

/// Reading further down the grid never loses a canopy cell.
pub proof fn lemma_cells_above_grows(rows: Seq<Seq<char>>, from: int, to: int)
    requires
        0 <= from <= to,
    ensures
        cells_above(rows, from).len() <= cells_above(rows, to).len(),
    decreases to - from,
{
    if from < to {
        lemma_cells_above_grows(rows, from, to - 1);
        lemma_cells_above_step(rows, to - 1);
    }
}

/// The canopy cells found in the first `x` columns of a row are those
/// columns that show the canopy glyph, each once.
proof fn lemma_row_prefix(row: Seq<char>, y: int, x: int)
    requires
        0 <= y <= u16::MAX,
        0 <= x <= row.len() <= u16::MAX,
    ensures
        row_span(y, x).filter(on_canopy(row)).no_duplicates(),
        forall|cell: (u16, u16)|
            row_span(y, x).filter(on_canopy(row)).contains(cell) <==> {
                &&& cell.1 == y
                &&& cell.0 < x
                &&& row[cell.0 as int] == CANOPY_GLYPH
            },
    decreases x,
{
    let found = row_span(y, x).filter(on_canopy(row));
    if x == 0 {
        assert(row_span(y, 0) =~= Seq::<(u16, u16)>::empty());
        row_span(y, 0).lemma_filter_len(on_canopy(row));
        assert(found.len() == 0);
    } else {
        let before = row_span(y, x - 1).filter(on_canopy(row));
        let here = ((x - 1) as u16, y as u16);
        lemma_row_prefix(row, y, x - 1);
        lemma_row_span_step(row, y, x - 1);
        if on_canopy(row)(here) {
            assert(found == before.push(here));
            assert(!before.contains(here));
            assert forall|cell: (u16, u16)| found.contains(cell) <==> {
                &&& cell.1 == y
                &&& cell.0 < x
                &&& row[cell.0 as int] == CANOPY_GLYPH
            } by {
                if found.contains(cell) {
                    let i = choose|i: int| 0 <= i < found.len() && found[i] == cell;
                    if i < before.len() {
                        assert(before[i] == cell);
                        assert(before.contains(cell));
                    }
                }
                if cell.1 == y && cell.0 < x && row[cell.0 as int] == CANOPY_GLYPH {
                    if cell.0 < x - 1 {
                        assert(before.contains(cell));
                        let i = choose|i: int| 0 <= i < before.len() && before[i] == cell;
                        assert(found[i] == cell);
                    } else {
                        assert(found[before.len() as int] == cell);
                    }
                }
            }
            assert forall|i: int, j: int|
                0 <= i < found.len() && 0 <= j < found.len() && i != j implies found[i]
                != found[j] by {
                if i == before.len() {
                    assert(before.contains(before[j]));
                } else if j == before.len() {
                    assert(before.contains(before[i]));
                }
            }
        } else {
            assert(found == before);
        }
    }
}

/// The canopy cells of one row are the columns of that row that show the
/// canopy glyph, each once.
pub proof fn lemma_row_cells(row: Seq<char>, y: int)
    requires
        0 <= y <= u16::MAX,
        row.len() <= u16::MAX,
    ensures
        row_cells(row, y).no_duplicates(),
        forall|cell: (u16, u16)|
            row_cells(row, y).contains(cell) <==> {
                &&& cell.1 == y
                &&& cell.0 < row.len()
                &&& row[cell.0 as int] == CANOPY_GLYPH
            },
{
    lemma_row_prefix(row, y, row.len() as int);
}

/// The canopy cells of the first `n` rows are the cells of those rows that
/// show the canopy glyph, each once.
proof fn lemma_cells_above(rows: Seq<Seq<char>>, n: int)
    requires
        fits_terminal(rows),
        0 <= n <= rows.len(),
    ensures
        cells_above(rows, n).no_duplicates(),
        forall|cell: (u16, u16)|
            cells_above(rows, n).contains(cell) <==> cell.1 < n && is_canopy(
                rows,
                cell.0 as int,
                cell.1 as int,
            ),
    decreases n,
{
    let found = cells_above(rows, n);
    if n == 0 {
        assert(Seq::new(0, |y: int| row_cells(rows[y], y)) =~= Seq::<Seq<(u16, u16)>>::empty());
        assert(found.len() == 0);
    } else {
        let above = cells_above(rows, n - 1);
        let row = row_cells(rows[n - 1], n - 1);
        lemma_grid_width_is_max(rows);
        lemma_cells_above(rows, n - 1);
        lemma_cells_above_step(rows, n - 1);
        lemma_row_cells(rows[n - 1], n - 1);
        assert(found == above + row);
        assert forall|i: int, j: int| 0 <= i < above.len() && 0 <= j < row.len() implies above[i]
            != row[j] by {
            assert(above.contains(above[i]));
            assert(row.contains(row[j]));
        }
        vstd::seq_lib::lemma_no_dup_in_concat(above, row);
        assert forall|cell: (u16, u16)|
            found.contains(cell) <==> cell.1 < n && is_canopy(
                rows,
                cell.0 as int,
                cell.1 as int,
            ) by {
            if found.contains(cell) {
                let i = choose|i: int| 0 <= i < found.len() && found[i] == cell;
                if i < above.len() {
                    assert(above[i] == cell);
                    assert(above.contains(cell));
                } else {
                    assert(row[i - above.len()] == cell);
                    assert(row.contains(cell));
                }
            }
            if cell.1 < n && is_canopy(rows, cell.0 as int, cell.1 as int) {
                if cell.1 < n - 1 {
                    assert(above.contains(cell));
                    let i = choose|i: int| 0 <= i < above.len() && above[i] == cell;
                    assert(found[i] == cell);
                } else {
                    assert(row.contains(cell));
                    let j = choose|j: int| 0 <= j < row.len() && row[j] == cell;
                    assert(found[above.len() + j] == cell);
                }
            }
        }
    }
}

/// The canopy cells of a grid are exactly its cells that show the canopy
/// glyph, and none is listed twice.
pub proof fn lemma_canopy_cells(rows: Seq<Seq<char>>)
    requires
        fits_terminal(rows),
    ensures
        canopy_cells(rows).no_duplicates(),
        forall|cell: (u16, u16)|
            canopy_cells(rows).contains(cell) <==> is_canopy(rows, cell.0 as int, cell.1 as int),
{
    lemma_cells_above(rows, rows.len() as int);
}

/// The canopy cells of the grid in reading order.
pub fn canopy_positions(grid: &Vec<String>) -> (positions: Vec<(u16, u16)>)
    requires
        fits_terminal(grid.deep_view()),
    ensures
        positions@ == canopy_cells(grid.deep_view()),
{
    let ghost rows = grid.deep_view();
    let mut positions: Vec<(u16, u16)> = Vec::new();
    let mut y: usize = 0;
    proof {
        assert(Seq::new(0, |y: int| row_cells(rows[y], y)) =~= Seq::<Seq<(u16, u16)>>::empty());
    }
    while y < grid.len()
        invariant
            y <= grid.len(),
            rows == grid.deep_view(),
            fits_terminal(rows),
            positions@ == cells_above(rows, y as int),
        decreases grid.len() - y,
    {
        let row = grid[y].as_str();
        let mut x: usize = 0;
        proof {
            lemma_grid_width_is_max(rows);
            assert(row@ == rows[y as int]);
            assert(row_span(y as int, 0) =~= Seq::<(u16, u16)>::empty());
            row_span(y as int, 0).lemma_filter_len(on_canopy(row@));
            assert(row_span(y as int, 0).filter(on_canopy(row@)) =~= Seq::<(u16, u16)>::empty());
        }
        for glyph in glyphs: row.chars()
            invariant
                x == glyphs.index(),
                glyphs.seq() == row@,
                row@.len() <= u16::MAX,
                y < grid.len() <= u16::MAX,
                positions@ == cells_above(rows, y as int) + row_span(y as int, x as int).filter(
                    on_canopy(row@),
                ),
        {
            proof {
                lemma_row_span_step(row@, y as int, x as int);
            }
            if glyph == CANOPY_GLYPH {
                positions.push((x as u16, y as u16));
            }
            x = x + 1;
        }
        proof {
            lemma_cells_above_step(rows, y as int);
        }
        y = y + 1;
    }
    positions
}

} // verus!
