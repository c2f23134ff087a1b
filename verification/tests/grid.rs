use christmas_tree::grid::{canopy_positions, dimensions, CANOPY_GLYPH};
use christmas_tree::tree::ChristmasTree;

fn grid_of(rows: &[&str]) -> Vec<String> {
    rows.iter().map(|r| r.to_string()).collect()
}

#[test]
fn canopy_glyph_is_the_star() {
    assert_eq!(CANOPY_GLYPH, '*');
}

#[test]
fn dimensions_of_the_shipped_tree() {
    assert_eq!(dimensions(&ChristmasTree::get_ascii_tree()), Some((49, 27)));
}

#[test]
fn dimensions_of_an_empty_grid() {
    assert_eq!(dimensions(&Vec::new()), Some((0, 0)));
    assert_eq!(dimensions(&grid_of(&["", ""])), Some((0, 2)));
}

#[test]
fn width_is_the_longest_row() {
    assert_eq!(dimensions(&grid_of(&["*", "*****", "**"])), Some((5, 3)));
    assert_eq!(dimensions(&grid_of(&["*******", "", "**"])), Some((7, 3)));
    assert_eq!(dimensions(&grid_of(&["", "", "**"])), Some((2, 3)));
}

#[test]
fn width_counts_characters() {
    assert_eq!(dimensions(&grid_of(&["\u{e9}\u{e9}*", "ab"])), Some((3, 2)));
}

#[test]
fn dimensions_at_the_16_bit_limit() {
    let widest = vec![" ".repeat(65535)];
    assert_eq!(dimensions(&widest), Some((65535, 1)));
    let too_wide = vec![String::new(), " ".repeat(65536)];
    assert_eq!(dimensions(&too_wide), None);
    let tallest = vec![String::new(); 65535];
    assert_eq!(dimensions(&tallest), Some((0, 65535)));
    let too_tall = vec![String::new(); 65536];
    assert_eq!(dimensions(&too_tall), None);
}

#[test]
fn canopy_positions_come_in_reading_order() {
    let grid = grid_of(&[" * ", "***", " | "]);
    assert_eq!(canopy_positions(&grid), vec![(1, 0), (0, 1), (1, 1), (2, 1)]);
}

#[test]
fn canopy_positions_of_ragged_rows() {
    let grid = grid_of(&["", "*", "  *|*", "o/\\"]);
    assert_eq!(canopy_positions(&grid), vec![(0, 1), (2, 2), (4, 2)]);
}

#[test]
fn canopy_positions_count_characters() {
    let grid = grid_of(&["\u{e9}*\u{1f384}*"]);
    assert_eq!(canopy_positions(&grid), vec![(1, 0), (3, 0)]);
}

#[test]
fn canopy_positions_of_a_grid_without_canopy() {
    assert_eq!(canopy_positions(&Vec::new()), Vec::new());
    assert_eq!(canopy_positions(&grid_of(&[" | ", " | "])), Vec::new());
}

#[test]
fn canopy_of_the_shipped_tree() {
    let grid = ChristmasTree::get_ascii_tree();
    let cells = canopy_positions(&grid);
    assert_eq!(cells.len(), 576);
    assert_eq!(cells[0], (24, 0));
    assert_eq!(&cells[1..4], &[(23, 1), (24, 1), (25, 1)]);
    assert_eq!(cells[575], (47, 23));
    for &(x, y) in &cells {
        assert_eq!(grid[y as usize].chars().nth(x as usize), Some('*'));
    }
}

#[test]
fn canopy_positions_at_the_last_column() {
    let mut row = " ".repeat(65534);
    row.push('*');
    assert_eq!(canopy_positions(&vec![row]), vec![(65534, 0)]);
}
