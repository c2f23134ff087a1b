//! The compositor: grid and ornaments in, one frame of coloured cells out.
//!
//! A frame is plain data. Nothing here touches a terminal; whoever draws the
//! frame walks its rows from the top and prints each cell in its colour.

use crate::colors::Color;
use crate::grid::CANOPY_GLYPH;
use crate::ornament::Ornament;
use vstd::prelude::*;

verus! {

/// The glyph of the trunk.
pub const TRUNK_GLYPH: char = '|';

/// The glyph of a slope that rises to the right.
pub const RISING_SLOPE_GLYPH: char = '/';

/// The glyph of a slope that falls to the right.
pub const FALLING_SLOPE_GLYPH: char = '\\';

/// The glyph of a bauble drawn into the grid itself.
pub const BAUBLE_GLYPH: char = 'o';

/// Number of empty rows between the last row of the grid and the caption.
pub const CAPTION_GAP: u16 = 2;

/// The text of the caption.
pub open spec fn caption_text() -> Seq<char> {
    "Press 'q' or ESC to quit"@
}

/// One character cell of a frame.
#[derive(Debug, Clone, Copy, PartialEq, Eq)]
pub struct Cell {
    pub glyph: char,
    /// The foreground colour to print the glyph in; `None` prints it in
    /// whatever colour the terminal is in.
    pub color: Option<Color>,
}

/// One full frame: a row of cells for each row of the grid, and the caption
/// that stands below them.
#[derive(Debug, PartialEq, Eq)]
pub struct Frame {
    pub rows: Vec<Vec<Cell>>,
    pub caption: String,
    pub caption_color: Color,
    /// Number of empty rows between the last row of cells and the caption.
    pub caption_gap: u16,
}

/// What a [`Frame`] holds, as mathematical sequences.
pub struct FrameView {
    pub rows: Seq<Seq<Cell>>,
    pub caption: Seq<char>,
    pub caption_color: Color,
    pub caption_gap: int,
}

impl View for Frame {
    type V = FrameView;

    open spec fn view(&self) -> FrameView {
        FrameView {
            rows: Seq::new(self.rows@.len(), |y: int| self.rows@[y]@),
            caption: self.caption@,
            caption_color: self.caption_color,
            caption_gap: self.caption_gap as int,
        }
    }
}

/// The colour that a glyph of the grid is drawn in.
pub open spec fn background_color(glyph: char) -> Color {
    if glyph == CANOPY_GLYPH {
        Color::Yellow
    } else if glyph == RISING_SLOPE_GLYPH || glyph == FALLING_SLOPE_GLYPH {
        Color::Green
    } else if glyph == TRUNK_GLYPH {
        Color::DarkRed
    } else if glyph == BAUBLE_GLYPH {
        Color::Red
    } else {
        Color::White
    }
}

/// The ornament that shows in column `x` of row `y`: the first in the
/// collection that occupies the cell, if any does.
pub open spec fn ornament_at(ornaments: Seq<Ornament>, x: int, y: int) -> Option<Ornament>
    decreases ornaments.len(),
{
    if ornaments.len() == 0 {
        None
    } else if ornaments.first().is_at(x, y) {
        Some(ornaments.first())
    } else {
        ornament_at(ornaments.drop_first(), x, y)
    }
}

/// The cell that shows where the grid has `glyph` and `ornament` is what
/// hangs there: a lit ornament in its own colour, a blank for one that is
/// not lit, and the glyph of the grid in its colour where nothing hangs.
pub open spec fn cell_of(glyph: char, ornament: Option<Ornament>) -> Cell {
    match ornament {
        Some(o) => Cell {
            glyph: o.glyph(),
            color: if o.is_visible {
                Some(o.color)
            } else {
                None
            },
        },
        None => Cell { glyph, color: Some(background_color(glyph)) },
    }
}

/// The cells of row `y` of the frame, from left to right.
pub open spec fn frame_row(rows: Seq<Seq<char>>, ornaments: Seq<Ornament>, y: int) -> Seq<Cell> {
    Seq::new(rows[y].len(), |x: int| cell_of(rows[y][x], ornament_at(ornaments, x, y)))
}

/// The frame that shows the grid `rows` with `ornaments` hung on it.
pub open spec fn frame_of(rows: Seq<Seq<char>>, ornaments: Seq<Ornament>) -> FrameView {
    FrameView {
        rows: Seq::new(rows.len(), |y: int| frame_row(rows, ornaments, y)),
        caption: caption_text(),
        caption_color: Color::DarkGrey,
        caption_gap: CAPTION_GAP as int,
    }
}

/// What [`ornament_at`] finds is the earliest ornament on the cell, and it
/// finds one whenever there is one.
pub proof fn lemma_ornament_at_is_first(ornaments: Seq<Ornament>, x: int, y: int)
    ensures
        match ornament_at(ornaments, x, y) {
            Some(found) => exists|i: int|
                {
                    &&& 0 <= i < ornaments.len()
                    &&& #[trigger] ornaments[i] == found
                    &&& found.is_at(x, y)
                    &&& forall|j: int| 0 <= j < i ==> !(#[trigger] ornaments[j]).is_at(x, y)
                },
            None => forall|i: int| 0 <= i < ornaments.len() ==> !(#[trigger] ornaments[i]).is_at(x, y),
        },
    decreases ornaments.len(),
{
    if ornaments.len() > 0 {
        let rest = ornaments.drop_first();
        if ornaments.first().is_at(x, y) {
            assert(ornaments[0] == ornaments.first());
        } else {
            lemma_ornament_at_is_first(rest, x, y);
            match ornament_at(rest, x, y) {
                Some(found) => {
                    let i = choose|i: int|
                        {
                            &&& 0 <= i < rest.len()
                            &&& #[trigger] rest[i] == found
                            &&& found.is_at(x, y)
                            &&& forall|j: int| 0 <= j < i ==> !(#[trigger] rest[j]).is_at(x, y)
                        };
                    assert(ornaments[i + 1] == found);
                    assert forall|j: int| 0 <= j < i + 1 implies !(#[trigger] ornaments[j]).is_at(
                        x,
                        y,
                    ) by {
                        if j > 0 {
                            assert(ornaments[j] == rest[j - 1]);
                        }
                    }
                },
                None => {
                    assert forall|i: int| 0 <= i < ornaments.len() implies !(
                    #[trigger] ornaments[i]).is_at(x, y) by {
                        if i > 0 {
                            assert(ornaments[i] == rest[i - 1]);
                        }
                    }
                },
            }
        }
    }
}

/// Two frames composed from the same grid and the same ornaments hold the
/// same cells and the same caption: composing reads nothing else.
pub proof fn lemma_compose_is_a_function(
    first: Frame,
    second: Frame,
    rows: Seq<Seq<char>>,
    ornaments: Seq<Ornament>,
)
    requires
        first@ == frame_of(rows, ornaments),
        second@ == frame_of(rows, ornaments),
    ensures
        first@ == second@,
{
}

/// The colour that a glyph of the grid is drawn in.
pub fn glyph_color(glyph: char) -> (color: Color)
    ensures
        color == background_color(glyph),
{
    if glyph == CANOPY_GLYPH {
        Color::Yellow
    } else if glyph == RISING_SLOPE_GLYPH || glyph == FALLING_SLOPE_GLYPH {
        Color::Green
    } else if glyph == TRUNK_GLYPH {
        Color::DarkRed
    } else if glyph == BAUBLE_GLYPH {
        Color::Red
    } else {
        Color::White
    }
}

/// The ornament that shows in column `x` of row `y`, found by scanning the
/// collection from the front.
pub fn find_ornament(ornaments: &Vec<Ornament>, x: usize, y: usize) -> (found: Option<Ornament>)
    ensures
        found == ornament_at(ornaments@, x as int, y as int),
{
    let mut i: usize = 0;
    proof {
        assert(ornaments@.skip(0) =~= ornaments@);
    }
    while i < ornaments.len()
        invariant
            i <= ornaments.len(),
            ornament_at(ornaments@, x as int, y as int) == ornament_at(
                ornaments@.skip(i as int),
                x as int,
                y as int,
            ),
        decreases ornaments.len() - i,
    {
        let ornament = ornaments[i];
        proof {
            assert(ornaments@.skip(i as int).first() == ornament);
            assert(ornaments@.skip(i as int).drop_first() =~= ornaments@.skip(i + 1));
        }
        if ornament.x as usize == x && ornament.y as usize == y {
            return Some(ornament);
        }
        i = i + 1;
    }
    None
}

/// The cell that shows where the grid has `glyph` and `ornament` is what
/// hangs there.
pub fn compose_cell(glyph: char, ornament: Option<Ornament>) -> (cell: Cell)
    ensures
        cell == cell_of(glyph, ornament),
{
    match ornament {
        Some(o) => {
            if o.is_visible {
                Cell { glyph: o.get_char(), color: Some(o.color) }
            } else {
                Cell { glyph: o.get_char(), color: None }
            }
        },
        None => Cell { glyph, color: Some(glyph_color(glyph)) },
    }
}

/// Composes one frame: every cell of the grid, with the ornament that
/// occupies it drawn over the glyph of the grid, and the caption below.
pub fn compose(grid: &Vec<String>, ornaments: &Vec<Ornament>) -> (frame: Frame)
    ensures
        frame@ == frame_of(grid.deep_view(), ornaments@),
{
    let ghost rows = grid.deep_view();
    let mut lines: Vec<Vec<Cell>> = Vec::new();
    let mut y: usize = 0;
    while y < grid.len()
        invariant
            y <= grid.len(),
            rows == grid.deep_view(),
            lines@.len() == y,
            forall|j: int| 0 <= j < y ==> (#[trigger] lines@[j])@ == frame_row(rows, ornaments@, j),
        decreases grid.len() - y,
    {
        let row = grid[y].as_str();
        let mut line: Vec<Cell> = Vec::new();
        proof {
            assert(row@ == rows[y as int]);
        }
        for glyph in glyphs: row.chars()
            invariant
                glyphs.seq() == row@,
                y < rows.len(),
                row@ == rows[y as int],
                line@.len() == glyphs.index(),
                forall|i: int|
                    0 <= i < line@.len() ==> #[trigger] line@[i] == cell_of(
                        row@[i],
                        ornament_at(ornaments@, i, y as int),
                    ),
        {
            let x = line.len();
            let found = find_ornament(ornaments, x, y);
            line.push(compose_cell(glyph, found));
        }
        proof {
            assert(line@ =~= frame_row(rows, ornaments@, y as int));
        }
        lines.push(line);
        y = y + 1;
    }
    let frame = Frame {
        rows: lines,
        caption: "Press 'q' or ESC to quit".to_string(),
        caption_color: Color::DarkGrey,
        caption_gap: CAPTION_GAP,
    };
    proof {
        assert(frame@.rows =~= frame_of(rows, ornaments@).rows);
    }
    frame
}

} // verus!
