//! Terminal colours and the palettes that ornaments are painted from.

use crate::random::{pick_below, thread_rng};
use vstd::prelude::*;

verus! {

/// A foreground colour of a terminal: the sixteen base colours, a 24-bit
/// colour, an entry of the 256-colour table, or the terminal's default.
#[derive(Debug, Clone, Copy, PartialEq, Eq, Hash, Structural)]
pub enum Color {
    Reset,
    Black,
    DarkGrey,
    Red,
    DarkRed,
    Green,
    DarkGreen,
    Yellow,
    DarkYellow,
    Blue,
    DarkBlue,
    Magenta,
    DarkMagenta,
    Cyan,
    DarkCyan,
    White,
    Grey,
    Rgb { r: u8, g: u8, b: u8 },
    AnsiValue(u8),
}

/// The colours an ornament can take, in palette order.
pub open spec fn palette() -> Seq<Color> {
    seq![Color::Red, Color::Blue, Color::Yellow, Color::Magenta, Color::Cyan, Color::White]
}

/// The warm part of the spectrum, in palette order.
pub open spec fn warm_palette() -> Seq<Color> {
    seq![Color::Red, Color::Yellow, Color::Magenta]
}

/// The cool part of the spectrum, in palette order.
pub open spec fn cool_palette() -> Seq<Color> {
    seq![Color::Blue, Color::Cyan, Color::Green]
}

/// Number of colours in [`palette`].
pub const PALETTE_SIZE: usize = 6;

/// Number of colours in [`warm_palette`] and in [`cool_palette`].
pub const TONE_PALETTE_SIZE: usize = 3;

/// The brown of the trunk, as a 24-bit colour.
pub fn brown() -> (c: Color)
    ensures
        c == (Color::Rgb { r: 165, g: 42, b: 42 }),
{
    Color::Rgb { r: 165, g: 42, b: 42 }
}

/// The 24-bit colour with the given channels.
pub fn rgb_to_color(r: u8, g: u8, b: u8) -> (c: Color)
    ensures
        c == (Color::Rgb { r, g, b }),
{
    Color::Rgb { r, g, b }
}

/// The `index`-th colour of the ornament palette.
pub fn palette_color(index: usize) -> (c: Color)
    requires
        index < PALETTE_SIZE,
    ensures
        c == palette()[index as int],
{
    let colors = [
        Color::Red,
        Color::Blue,
        Color::Yellow,
        Color::Magenta,
        Color::Cyan,
        Color::White,
    ];
    colors[index]
}

/// The `index`-th colour of the warm palette.
pub fn warm_color(index: usize) -> (c: Color)
    requires
        index < TONE_PALETTE_SIZE,
    ensures
        c == warm_palette()[index as int],
{
    let colors = [Color::Red, Color::Yellow, Color::Magenta];
    colors[index]
}

/// The `index`-th colour of the cool palette.
pub fn cool_color(index: usize) -> (c: Color)
    requires
        index < TONE_PALETTE_SIZE,
    ensures
        c == cool_palette()[index as int],
{
    let colors = [Color::Blue, Color::Cyan, Color::Green];
    colors[index]
}

/// A colour drawn at random from the ornament palette.
pub fn random_color() -> (c: Color)
    ensures
        palette().contains(c),
{
    let mut rng = thread_rng();
    let index = pick_below(&mut rng, PALETTE_SIZE);
    palette_color(index)
}

/// A colour drawn at random from the warm palette.
pub fn random_warm_color() -> (c: Color)
    ensures
        warm_palette().contains(c),
{
    let mut rng = thread_rng();
    let index = pick_below(&mut rng, TONE_PALETTE_SIZE);
    warm_color(index)
}

/// A colour drawn at random from the cool palette.
pub fn random_cool_color() -> (c: Color)
    ensures
        cool_palette().contains(c),
{
    let mut rng = thread_rng();
    let index = pick_below(&mut rng, TONE_PALETTE_SIZE);
    cool_color(index)
}

} // verus!
