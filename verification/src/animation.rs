//! The frame loop as a state machine: what one pass of the loop does to the
//! animation, given the key that was read at its start.
//!
//! The loop itself belongs to the caller, who owns the terminal: it calls
//! [`AnimationLoop::start`], then, while [`AnimationLoop::running`] holds,
//! reads at most one key, hands it to [`AnimationLoop::step`], draws the
//! frame that comes back and waits [`FRAME_INTERVAL_MS`] milliseconds.

use crate::render::{compose, frame_of, Frame};
use crate::tree::{ascii_tree, ticked, ChristmasTree, ORNAMENT_COUNT};
use vstd::prelude::*;

verus! {

/// Milliseconds to wait after each frame.
pub const FRAME_INTERVAL_MS: u64 = 100;

/// The character key that ends the animation.
pub const QUIT_KEY: char = 'q';

/// The character key set aside for recolouring every ornament.
pub const RECOLOR_KEY: char = 'r';

/// The character key set aside for changing the speed.
pub const SPEED_KEY: char = 's';

/// A key press, as far as the animation tells keys apart.
#[derive(Debug, Clone, Copy, PartialEq, Eq, Structural)]
pub enum Key {
    /// A character key.
    Char(char),
    /// The escape key.
    Esc,
    /// Any other key.
    Other,
}

/// Where the frame loop stands.
#[derive(Debug, Clone, Copy, PartialEq, Eq, Structural)]
pub enum LoopState {
    /// Not started yet.
    Idle,
    /// Started, and no key has ended it.
    Running,
    /// Ended by a key.
    Stopped,
}

/// Whether the key ends the animation.
pub open spec fn is_quit(key: Key) -> bool {
    key == Key::Esc || key == Key::Char(QUIT_KEY)
}

/// Whether the key is set aside for a later command. Such a key does
/// nothing.
pub open spec fn is_reserved(key: Key) -> bool {
    key == Key::Char(RECOLOR_KEY) || key == Key::Char(SPEED_KEY)
}

/// Whether the input read at the start of a pass ends the animation.
pub open spec fn quits(input: Option<Key>) -> bool {
    input matches Some(key) && is_quit(key)
}

/// The keys set aside for later commands are no quit keys, so that
/// [`AnimationLoop::handle_input`] passes them over like any other key.
pub proof fn lemma_reserved_keys_are_inert(key: Key)
    requires
        is_reserved(key),
    ensures
        !quits(Some(key)),
{
}

/// The animation: the tree, whether the loop goes on, and the number of
/// frames shown so far.
pub struct AnimationLoop {
    pub tree: ChristmasTree,
    pub running: bool,
    pub frame_count: u64,
}

impl AnimationLoop {
    /// Where the loop stands. A loop that is not running has either not
    /// begun, and then has shown no frame, or was ended by a key in a pass
    /// that went on to show its frame.
    pub open spec fn state_of(&self) -> LoopState {
        if self.running {
            LoopState::Running
        } else if self.frame_count == 0 {
            LoopState::Idle
        } else {
            LoopState::Stopped
        }
    }

    /// A loop that has not started, around a newly decorated shipped tree.
    pub fn new() -> (animation: AnimationLoop)
        ensures
            !animation.running,
            animation.frame_count == 0,
            animation.state_of() == LoopState::Idle,
            animation.tree.rows() == ascii_tree(),
            animation.tree.newly_decorated(ORNAMENT_COUNT as int),
            animation.tree.ornaments@.len() == ORNAMENT_COUNT,
    {
        AnimationLoop { tree: ChristmasTree::new(), running: false, frame_count: 0 }
    }

    /// Where the loop stands.
    pub fn state(&self) -> (state: LoopState)
        ensures
            state == self.state_of(),
    {
        if self.running {
            LoopState::Running
        } else if self.frame_count == 0 {
            LoopState::Idle
        } else {
            LoopState::Stopped
        }
    }

    /// Starts the loop. Nothing else changes.
    pub fn start(&mut self)
        ensures
            *final(self) == (AnimationLoop { running: true, ..*old(self) }),
            final(self).state_of() == LoopState::Running,
    {
        self.running = true;
    }

    /// Takes the input read at the start of a pass: a quit key ends the
    /// loop, and any other key, or none, changes nothing at all.
    pub fn handle_input(&mut self, input: Option<Key>)
        ensures
            quits(input) ==> *final(self) == (AnimationLoop { running: false, ..*old(self) }),
            !quits(input) ==> *final(self) == *old(self),
    {
        match input {
            Some(Key::Esc) => {
                self.running = false;
            },
            Some(Key::Char(c)) => {
                if c == QUIT_KEY {
                    self.running = false;
                } else if c == RECOLOR_KEY {
                } else if c == SPEED_KEY {
                }
            },
            _ => {},
        }
    }

    /// Advances every ornament of the tree by one tick.
    pub fn update(&mut self)
        ensures
            final(self).running == old(self).running,
            final(self).frame_count == old(self).frame_count,
            final(self).tree.grid == old(self).tree.grid,
            final(self).tree.width == old(self).tree.width,
            final(self).tree.height == old(self).tree.height,
            ticked(old(self).tree.ornaments@, final(self).tree.ornaments@),
            old(self).tree.well_placed() ==> final(self).tree.well_placed(),
    {
        self.tree.update();
    }

    /// The frame that shows the tree as it is now.
    pub fn render(&self) -> (frame: Frame)
        ensures
            frame@ == frame_of(self.tree.rows(), self.tree.ornaments@),
    {
        compose(&self.tree.grid, &self.tree.ornaments)
    }

    /// One pass of the loop: takes the input, advances the ornaments,
    /// composes the frame to draw and counts it. A quit key takes effect
    /// after the pass: the pass still ticks and still yields its frame.
    pub fn step(&mut self, input: Option<Key>) -> (frame: Frame)
        requires
            old(self).frame_count < u64::MAX,
        ensures
            final(self).running == (old(self).running && !quits(input)),
            final(self).frame_count == old(self).frame_count + 1,
            final(self).tree.grid == old(self).tree.grid,
            final(self).tree.width == old(self).tree.width,
            final(self).tree.height == old(self).tree.height,
            ticked(old(self).tree.ornaments@, final(self).tree.ornaments@),
            old(self).tree.well_placed() ==> final(self).tree.well_placed(),
            frame@ == frame_of(final(self).tree.rows(), final(self).tree.ornaments@),
    {
        self.handle_input(input);
        self.update();
        let frame = self.render();
        self.frame_count = self.frame_count + 1;
        frame
    }
}

impl Default for AnimationLoop {
    fn default() -> (animation: AnimationLoop)
        ensures
            !animation.running,
            animation.frame_count == 0,
            animation.tree.rows() == ascii_tree(),
            animation.tree.newly_decorated(ORNAMENT_COUNT as int),
            animation.tree.ornaments@.len() == ORNAMENT_COUNT,
    {
        AnimationLoop::new()
    }
}

} // verus!
