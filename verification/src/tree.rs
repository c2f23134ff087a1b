//! The tree: a glyph grid and the ornaments that hang on its canopy.

use crate::colors::{palette, random_color};
use crate::grid::{
    canopy_cells, canopy_positions, dimensions, fits_terminal, grid_width, is_canopy,
    lemma_canopy_cells, lemma_cells_above_grows, lemma_cells_above_step, lemma_grid_width_is_max,
    lemma_row_span_grows, lemma_row_span_step, row_cells, CANOPY_GLYPH,
};
use crate::ornament::{LightMode, Ornament};
use crate::random::{shuffle, thread_rng};
use vstd::prelude::*;

verus! {

/// Number of ornaments that a new tree is given, where the canopy has room
/// for as many.
pub const ORNAMENT_COUNT: usize = 8;

/// The tree that ships with the crate, row by row.
pub open spec fn ascii_tree() -> Seq<Seq<char>> {
    seq![
        "                        *                        "@,
        "                       ***                       "@,
        "                      *****                      "@,
        "                     *******                     "@,
        "                    *********                    "@,
        "                   ***********                   "@,
        "                  *************                  "@,
        "                 ***************                 "@,
        "                *****************                "@,
        "               *******************               "@,
        "              *********************              "@,
        "             ***********************             "@,
        "            *************************            "@,
        "           ***************************           "@,
        "          *****************************          "@,
        "         *******************************         "@,
        "        *********************************        "@,
        "       ***********************************       "@,
        "      *************************************      "@,
        "     ***************************************     "@,
        "    *****************************************    "@,
        "   *******************************************   "@,
        "  *********************************************  "@,
        " *********************************************** "@,
        "                     |||||                       "@,
        "                     |||||                       "@,
        "                     |||||                       "@,
    ]
}

/// Whether no two of the ornaments occupy the same cell.
pub open spec fn positions_distinct(ornaments: Seq<Ornament>) -> bool {
    forall|i: int, j: int|
        0 <= i < j < ornaments.len() ==> !(#[trigger] ornaments[i]).is_at(
            (#[trigger] ornaments[j]).x as int,
            ornaments[j].y as int,
        )
}

/// Whether every one of the ornaments hangs on a canopy cell of the grid.
pub open spec fn all_on_canopy(rows: Seq<Seq<char>>, ornaments: Seq<Ornament>) -> bool {
    forall|i: int|
        0 <= i < ornaments.len() ==> is_canopy(
            rows,
            (#[trigger] ornaments[i]).x as int,
            ornaments[i].y as int,
        )
}

/// Whether `ornament` is a newly made blinking ornament on `cell`, in a
/// colour of the palette.
pub open spec fn hangs_on(ornament: Ornament, cell: (u16, u16)) -> bool {
    &&& ornament == Ornament::fresh(cell.0, cell.1, ornament.color, LightMode::Blinking)
    &&& palette().contains(ornament.color)
}

/// Whether `ornaments` are newly made blinking ornaments on the first cells
/// of `order`, cell by cell: as many as `desired`, or as many as there are
/// cells where those are fewer.
pub open spec fn decorates(ornaments: Seq<Ornament>, order: Seq<(u16, u16)>, desired: int) -> bool {
    &&& ornaments.len() == if desired <= order.len() {
        desired
    } else {
        order.len() as int
    }
    &&& forall|i: int| 0 <= i < ornaments.len() ==> hangs_on(#[trigger] ornaments[i], order[i])
}

/// Whether `after` is `before` with every ornament advanced by one update.
pub open spec fn ticked(before: Seq<Ornament>, after: Seq<Ornament>) -> bool {
    &&& after.len() == before.len()
    &&& forall|i: int| 0 <= i < before.len() ==> (#[trigger] before[i]).steps_to(after[i])
}

/// A tree: its glyph grid, the size of the grid, and its ornaments.
pub struct ChristmasTree {
    /// The rows of text that draw the tree. Set once, when the tree is made.
    pub grid: Vec<String>,
    pub ornaments: Vec<Ornament>,
    /// Length of the longest row of the grid.
    pub width: u16,
    /// Number of rows of the grid.
    pub height: u16,
}

impl ChristmasTree {
    /// The grid of the tree, as rows of characters.
    pub open spec fn rows(&self) -> Seq<Seq<char>> {
        self.grid.deep_view()
    }

    /// Whether width and height are those of the grid.
    pub open spec fn measured(&self) -> bool {
        &&& self.width == grid_width(self.rows())
        &&& self.height == self.rows().len()
    }

    /// Whether every ornament hangs on a canopy cell of the grid and no two
    /// share a cell.
    pub open spec fn well_placed(&self) -> bool {
        &&& all_on_canopy(self.rows(), self.ornaments@)
        &&& positions_distinct(self.ornaments@)
    }

    /// Whether the tree is as [`ChristmasTree::with_grid`] leaves it when
    /// asked for `desired` ornaments: measured, with `desired` ornaments or
    /// one on every canopy cell where those are fewer, each newly made,
    /// blinking and in a colour of the palette, all on canopy cells and no
    /// two on the same.
    pub open spec fn newly_decorated(&self, desired: int) -> bool {
        &&& self.measured()
        &&& self.well_placed()
        &&& self.ornaments@.len() == if desired <= canopy_cells(self.rows()).len() {
            desired
        } else {
            canopy_cells(self.rows()).len() as int
        }
        &&& forall|i: int|
            0 <= i < self.ornaments@.len() ==> hangs_on(
                #[trigger] self.ornaments@[i],
                (self.ornaments@[i].x, self.ornaments@[i].y),
            )
    }

    /// The tree that ships with the crate, decorated with
    /// [`ORNAMENT_COUNT`] ornaments on canopy cells chosen at random.
    pub fn new() -> (tree: ChristmasTree)
        ensures
            tree.rows() == ascii_tree(),
            tree.newly_decorated(ORNAMENT_COUNT as int),
            tree.ornaments@.len() == ORNAMENT_COUNT,
    {
        let grid = Self::get_ascii_tree();
        proof {
            lemma_ascii_tree_measures();
            lemma_ascii_tree_has_room();
        }
        Self::with_grid(grid, ORNAMENT_COUNT).unwrap()
    }

    /// A tree drawn by `grid`, decorated with `desired` ornaments on canopy
    /// cells chosen at random, or with one on every canopy cell where those
    /// are fewer. `None` where a coordinate of the grid does not fit in 16
    /// bits.
    pub fn with_grid(grid: Vec<String>, desired: usize) -> (planted: Option<ChristmasTree>)
        ensures
            planted.is_some() == fits_terminal(grid.deep_view()),
            planted matches Some(tree) ==> tree.grid == grid && tree.newly_decorated(
                desired as int,
            ),
    {
        match dimensions(&grid) {
            None => None,
            Some((width, height)) => {
                let mut positions = canopy_positions(&grid);
                let ghost cells = positions@;
                let mut rng = thread_rng();
                shuffle(&mut rng, &mut positions);
                let ornaments = Self::decorate(&positions, desired);
                proof {
                    lemma_canopy_cells(grid.deep_view());
                    lemma_shuffled(cells, positions@);
                    lemma_decorated_in_place(ornaments@, positions@, desired as int);
                    assert forall|i: int| 0 <= i < ornaments@.len() implies is_canopy(
                        grid.deep_view(),
                        (#[trigger] ornaments@[i]).x as int,
                        ornaments@[i].y as int,
                    ) by {
                        assert(positions@.contains(positions@[i]));
                    }
                }
                Some(ChristmasTree { grid, ornaments, width, height })
            },
        }
    }

    /// Newly made blinking ornaments on the first cells of `order`, each in
    /// a colour drawn from the palette: `desired` of them, or one for every
    /// cell where those are fewer.
    pub fn decorate(order: &Vec<(u16, u16)>, desired: usize) -> (ornaments: Vec<Ornament>)
        ensures
            decorates(ornaments@, order@, desired as int),
    {
        let count = if desired <= order.len() {
            desired
        } else {
            order.len()
        };
        let mut ornaments: Vec<Ornament> = Vec::new();
        let mut i: usize = 0;
        while i < count
            invariant
                i <= count <= order.len(),
                ornaments@.len() == i,
                forall|k: int| 0 <= k < i ==> hangs_on(#[trigger] ornaments@[k], order@[k]),
            decreases count - i,
        {
            let (x, y) = order[i];
            ornaments.push(Ornament::new(x, y, random_color(), LightMode::Blinking));
            i = i + 1;
        }
        ornaments
    }

    /// The tree that ships with the crate, row by row.
    pub fn get_ascii_tree() -> (grid: Vec<String>)
        ensures
            grid.deep_view() == ascii_tree(),
    {
        let grid = vec![
            "                        *                        ".to_string(),
            "                       ***                       ".to_string(),
            "                      *****                      ".to_string(),
            "                     *******                     ".to_string(),
            "                    *********                    ".to_string(),
            "                   ***********                   ".to_string(),
            "                  *************                  ".to_string(),
            "                 ***************                 ".to_string(),
            "                *****************                ".to_string(),
            "               *******************               ".to_string(),
            "              *********************              ".to_string(),
            "             ***********************             ".to_string(),
            "            *************************            ".to_string(),
            "           ***************************           ".to_string(),
            "          *****************************          ".to_string(),
            "         *******************************         ".to_string(),
            "        *********************************        ".to_string(),
            "       ***********************************       ".to_string(),
            "      *************************************      ".to_string(),
            "     ***************************************     ".to_string(),
            "    *****************************************    ".to_string(),
            "   *******************************************   ".to_string(),
            "  *********************************************  ".to_string(),
            " *********************************************** ".to_string(),
            "                     |||||                       ".to_string(),
            "                     |||||                       ".to_string(),
            "                     |||||                       ".to_string(),
        ];
        proof {
            assert(grid.deep_view() =~= ascii_tree());
        }
        grid
    }

    /// Advances every ornament by one tick. No ornament moves.
    pub fn update(&mut self)
        ensures
            final(self).grid == old(self).grid,
            final(self).width == old(self).width,
            final(self).height == old(self).height,
            ticked(old(self).ornaments@, final(self).ornaments@),
            old(self).well_placed() ==> final(self).well_placed(),
    {
        let mut i: usize = 0;
        while i < self.ornaments.len()
            invariant
                i <= self.ornaments@.len(),
                self.grid == old(self).grid,
                self.width == old(self).width,
                self.height == old(self).height,
                self.ornaments@.len() == old(self).ornaments@.len(),
                forall|k: int|
                    0 <= k < i ==> (#[trigger] old(self).ornaments@[k]).steps_to(self.ornaments@[k]),
                forall|k: int|
                    i <= k < self.ornaments@.len() ==> self.ornaments@[k] == old(
                        self,
                    ).ornaments@[k],
            decreases self.ornaments@.len() - i,
        {
            self.ornaments[i].update();
            i = i + 1;
        }
        proof {
            lemma_steps_keep_placement(self.rows(), old(self).ornaments@, self.ornaments@);
        }
    }

    /// Hangs one more ornament on the tree, wherever it says it hangs.
    pub fn add_ornament(&mut self, ornament: Ornament)
        ensures
            final(self).ornaments@ == old(self).ornaments@.push(ornament),
            final(self).grid == old(self).grid,
            final(self).width == old(self).width,
            final(self).height == old(self).height,
    {
        self.ornaments.push(ornament);
    }

    /// Takes every ornament off the tree.
    pub fn clear_ornaments(&mut self)
        ensures
            final(self).ornaments@ == Seq::<Ornament>::empty(),
            final(self).grid == old(self).grid,
            final(self).width == old(self).width,
            final(self).height == old(self).height,
    {
        self.ornaments.clear();
    }
}

impl Default for ChristmasTree {
    fn default() -> (tree: ChristmasTree)
        ensures
            tree.rows() == ascii_tree(),
            tree.newly_decorated(ORNAMENT_COUNT as int),
            tree.ornaments@.len() == ORNAMENT_COUNT,
    {
        ChristmasTree::new()
    }
}

/// A reordering of cells that were all different holds the same cells, as
/// many, and all different still.
pub proof fn lemma_shuffled(cells: Seq<(u16, u16)>, shuffled: Seq<(u16, u16)>)
    requires
        cells.no_duplicates(),
        shuffled.to_multiset() == cells.to_multiset(),
    ensures
        shuffled.no_duplicates(),
        shuffled.len() == cells.len(),
        forall|cell: (u16, u16)| shuffled.contains(cell) <==> cells.contains(cell),
{
    vstd::seq_lib::to_multiset_len(cells);
    vstd::seq_lib::to_multiset_len(shuffled);
    cells.lemma_multiset_has_no_duplicates();
    shuffled.lemma_multiset_has_no_duplicates_conv();
    assert forall|cell: (u16, u16)| shuffled.contains(cell) <==> cells.contains(cell) by {
        vstd::seq_lib::to_multiset_contains(cells, cell);
        vstd::seq_lib::to_multiset_contains(shuffled, cell);
    }
}

/// Ornaments made for the first cells of an order without repeats occupy
/// those cells, so no two share one.
pub proof fn lemma_decorated_in_place(
    ornaments: Seq<Ornament>,
    order: Seq<(u16, u16)>,
    desired: int,
)
    requires
        decorates(ornaments, order, desired),
        order.no_duplicates(),
        0 <= desired,
    ensures
        positions_distinct(ornaments),
        forall|i: int|
            0 <= i < ornaments.len() ==> (#[trigger] ornaments[i]).is_at(
                order[i].0 as int,
                order[i].1 as int,
            ),
{
    assert forall|i: int, j: int| 0 <= i < j < ornaments.len() implies !(
    #[trigger] ornaments[i]).is_at((#[trigger] ornaments[j]).x as int, ornaments[j].y as int) by {
        assert(hangs_on(ornaments[i], order[i]));
        assert(hangs_on(ornaments[j], order[j]));
        assert(order[i] != order[j]);
    }
}

/// Ticks leave ornaments where they hang: what was on canopy cells, no two
/// on the same, still is after every ornament has taken a step.
pub proof fn lemma_steps_keep_placement(
    rows: Seq<Seq<char>>,
    before: Seq<Ornament>,
    after: Seq<Ornament>,
)
    requires
        ticked(before, after),
    ensures
        all_on_canopy(rows, before) ==> all_on_canopy(rows, after),
        positions_distinct(before) ==> positions_distinct(after),
{
    assert forall|i: int| 0 <= i < before.len() implies (#[trigger] after[i]).x == before[i].x
        && after[i].y == before[i].y by {
        assert(before[i].steps_to(after[i]));
    }
    if all_on_canopy(rows, before) {
        assert forall|i: int| 0 <= i < after.len() implies is_canopy(
            rows,
            (#[trigger] after[i]).x as int,
            after[i].y as int,
        ) by {
            assert(is_canopy(rows, before[i].x as int, before[i].y as int));
        }
    }
    if positions_distinct(before) {
        assert forall|i: int, j: int| 0 <= i < j < after.len() implies !(#[trigger] after[i]).is_at(
            (#[trigger] after[j]).x as int,
            after[j].y as int,
        ) by {
            assert(!before[i].is_at(before[j].x as int, before[j].y as int));
        }
    }
}

/// The shipped tree has 27 rows, each 49 characters long.
pub proof fn lemma_ascii_tree_measures()
    ensures
        ascii_tree().len() == 27,
        forall|y: int| 0 <= y < 27 ==> (#[trigger] ascii_tree()[y]).len() == 49,
        grid_width(ascii_tree()) == 49,
        fits_terminal(ascii_tree()),
{
    reveal_strlit("                        *                        ");
    reveal_strlit("                       ***                       ");
    reveal_strlit("                      *****                      ");
    reveal_strlit("                     *******                     ");
    reveal_strlit("                    *********                    ");
    reveal_strlit("                   ***********                   ");
    reveal_strlit("                  *************                  ");
    reveal_strlit("                 ***************                 ");
    reveal_strlit("                *****************                ");
    reveal_strlit("               *******************               ");
    reveal_strlit("              *********************              ");
    reveal_strlit("             ***********************             ");
    reveal_strlit("            *************************            ");
    reveal_strlit("           ***************************           ");
    reveal_strlit("          *****************************          ");
    reveal_strlit("         *******************************         ");
    reveal_strlit("        *********************************        ");
    reveal_strlit("       ***********************************       ");
    reveal_strlit("      *************************************      ");
    reveal_strlit("     ***************************************     ");
    reveal_strlit("    *****************************************    ");
    reveal_strlit("   *******************************************   ");
    reveal_strlit("  *********************************************  ");
    reveal_strlit(" *********************************************** ");
    reveal_strlit("                     |||||                       ");
    assert(forall|y: int| 0 <= y < 27 ==> (#[trigger] ascii_tree()[y]).len() == 49);
    lemma_grid_width_is_max(ascii_tree());
}

/// The canopy of the shipped tree has room for [`ORNAMENT_COUNT`] ornaments:
/// its fifth row alone has as many canopy cells.
pub proof fn lemma_ascii_tree_has_room()
    ensures
        canopy_cells(ascii_tree()).len() >= ORNAMENT_COUNT,
{
    let rows = ascii_tree();
    let row = rows[4];
    reveal_strlit("                    *********                    ");
    assert(forall|x: int| 20 <= x < 28 ==> #[trigger] row[x] == CANOPY_GLYPH);
    lemma_row_span_step(row, 4, 20);
    lemma_row_span_step(row, 4, 21);
    lemma_row_span_step(row, 4, 22);
    lemma_row_span_step(row, 4, 23);
    lemma_row_span_step(row, 4, 24);
    lemma_row_span_step(row, 4, 25);
    lemma_row_span_step(row, 4, 26);
    lemma_row_span_step(row, 4, 27);
    lemma_row_span_grows(row, 4, 28, 49);
    assert(row_cells(row, 4).len() >= 8);
    lemma_cells_above_step(rows, 4);
    lemma_cells_above_grows(rows, 5, 27);
}

} // verus!
