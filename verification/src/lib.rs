//! An animated ASCII-art tree for the terminal, as a pure model.
//!
//! The crate holds the state of the animation and the rules that move it:
//! ornaments that recolour on a timer, a tree that hangs them on the canopy of
//! a glyph grid, a compositor that turns grid and ornaments into a frame of
//! coloured cells, and the state machine of the frame loop. Drawing a frame,
//! reading the keyboard and pacing the loop are left to the caller.

pub mod colors;
pub mod random;
pub mod ornament;
pub mod grid;
pub mod render;
pub mod tree;
pub mod animation;
