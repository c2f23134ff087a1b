//! Ornaments: one coloured point of the tree, and how a tick changes it.

use crate::colors::{palette, random_color, Color};
use vstd::prelude::*;

verus! {

/// How an ornament behaves from tick to tick.
#[derive(Debug, Clone, Copy, PartialEq, Eq, Structural)]
pub enum LightMode {
    /// Takes a new colour every [`BLINK_INTERVAL`] ticks.
    Blinking,
    /// Always lit.
    Steady,
    /// Lit; reserved for a fade.
    Fading,
    /// Lit; reserved for a pulse.
    Pulsing,
}

/// Number of ticks from one recolouring of a blinking ornament to the next.
pub const BLINK_INTERVAL: u32 = 5;

/// The glyph of a lit ornament.
pub const ORNAMENT_GLYPH: char = 'o';

/// The glyph of an ornament that is not lit.
pub const BLANK_GLYPH: char = ' ';

/// A single ornament: where it hangs, how it looks, and how far it is into
/// its blink interval.
#[derive(Debug, Clone, Copy, PartialEq, Eq, Structural)]
pub struct Ornament {
    /// Column of the cell the ornament occupies.
    pub x: u16,
    /// Row of the cell the ornament occupies.
    pub y: u16,
    pub color: Color,
    pub light_mode: LightMode,
    pub is_visible: bool,
    /// Ticks since the last recolouring.
    pub blink_counter: u32,
}

impl Ornament {
    /// The ornament as [`Ornament::new`] makes it: lit, at the start of its
    /// interval.
    pub open spec fn fresh(x: u16, y: u16, color: Color, light_mode: LightMode) -> Ornament {
        Ornament { x, y, color, light_mode, is_visible: true, blink_counter: 0 }
    }

    /// Whether the ornament occupies the cell in column `x` of row `y`.
    pub open spec fn is_at(self, x: int, y: int) -> bool {
        self.x == x && self.y == y
    }

    /// Whether the next tick ends a blink interval, so that the ornament
    /// takes a new colour.
    pub open spec fn recolor_due(self) -> bool {
        self.light_mode == LightMode::Blinking && self.blink_counter + 1 >= BLINK_INTERVAL
    }

    /// The ornament one tick later, where `fresh` is the colour it takes if
    /// the tick ends a blink interval.
    pub open spec fn after_tick(self, fresh: Color) -> Ornament {
        if self.light_mode == LightMode::Blinking {
            if self.recolor_due() {
                Ornament { color: fresh, blink_counter: 0, ..self }
            } else {
                Ornament { blink_counter: (self.blink_counter + 1) as u32, ..self }
            }
        } else {
            Ornament { is_visible: true, ..self }
        }
    }

    /// The ornament after one tick for each of `samples`, in order.
    pub open spec fn after_ticks(self, samples: Seq<Color>) -> Ornament
        decreases samples.len(),
    {
        if samples.len() == 0 {
            self
        } else {
            self.after_ticks(samples.drop_last()).after_tick(samples.last())
        }
    }

    /// Whether `next` can be this ornament after one tick with a colour
    /// drawn from the palette.
    pub open spec fn steps_to(self, next: Ornament) -> bool {
        &&& next == self.after_tick(next.color)
        &&& self.recolor_due() ==> palette().contains(next.color)
    }

    /// The glyph that shows the ornament.
    pub open spec fn glyph(self) -> char {
        if self.is_visible {
            ORNAMENT_GLYPH
        } else {
            BLANK_GLYPH
        }
    }

    /// A lit ornament at column `x` of row `y`, at the start of its interval.
    pub fn new(x: u16, y: u16, color: Color, light_mode: LightMode) -> (ornament: Ornament)
        ensures
            ornament == Ornament::fresh(x, y, color, light_mode),
    {
        Ornament { x, y, color, light_mode, is_visible: true, blink_counter: 0 }
    }

    /// Whether the next tick gives the ornament a new colour.
    pub fn is_recolor_due(&self) -> (due: bool)
        ensures
            due == self.recolor_due(),
    {
        match self.light_mode {
            LightMode::Blinking => self.blink_counter >= BLINK_INTERVAL - 1,
            _ => false,
        }
    }

    /// Advances the ornament by one tick. A blinking ornament counts the
    /// tick and, once the count reaches [`BLINK_INTERVAL`], takes the colour
    /// `fresh` and starts counting anew; any other ornament is lit.
    pub fn tick(&mut self, fresh: Color)
        ensures
            *final(self) == old(self).after_tick(fresh),
    {
        match self.light_mode {
            LightMode::Blinking => {
                if self.blink_counter >= BLINK_INTERVAL - 1 {
                    self.color = fresh;
                    self.blink_counter = 0;
                } else {
                    self.blink_counter = self.blink_counter + 1;
                }
            },
            LightMode::Steady | LightMode::Fading | LightMode::Pulsing => {
                self.is_visible = true;
            },
        }
    }

    /// Advances the ornament by one tick, drawing the new colour from the
    /// palette when the tick ends a blink interval.
    pub fn update(&mut self)
        ensures
            old(self).steps_to(*final(self)),
    {
        let fresh = if self.is_recolor_due() {
            random_color()
        } else {
            self.color
        };
        self.tick(fresh);
    }

    /// The glyph that shows the ornament: the marker when it is lit, a blank
    /// otherwise.
    pub fn get_char(&self) -> (glyph: char)
        ensures
            glyph == self.glyph(),
    {
        if self.is_visible {
            ORNAMENT_GLYPH
        } else {
            BLANK_GLYPH
        }
    }
}

/// A tick never moves an ornament, changes its mode or puts out its light.
pub proof fn lemma_tick_keeps_place(ornament: Ornament, fresh: Color)
    ensures
        ornament.after_tick(fresh).x == ornament.x,
        ornament.after_tick(fresh).y == ornament.y,
        ornament.after_tick(fresh).light_mode == ornament.light_mode,
        ornament.is_visible ==> ornament.after_tick(fresh).is_visible,
{
}

/// Within a blink interval nothing but the counter moves: a blinking
/// ornament at the start of its interval, ticked fewer than
/// [`BLINK_INTERVAL`] times, has counted the ticks and is otherwise as it
/// was, whatever colours were on offer.
pub proof fn lemma_blink_holds_color(ornament: Ornament, samples: Seq<Color>)
    requires
        ornament.light_mode == LightMode::Blinking,
        ornament.blink_counter == 0,
        samples.len() < BLINK_INTERVAL,
    ensures
        ornament.after_ticks(samples) == (Ornament {
            blink_counter: samples.len() as u32,
            ..ornament
        }),
    decreases samples.len(),
{
    if samples.len() > 0 {
        lemma_blink_holds_color(ornament, samples.drop_last());
    }
}

/// A blink interval ends with exactly one recolouring: a blinking ornament
/// at the start of its interval keeps its colour over the first
/// `BLINK_INTERVAL - 1` ticks, takes the colour offered at tick number
/// `BLINK_INTERVAL`, and is then at the start of an interval again. Its
/// light is never touched.
pub proof fn lemma_blink_cycle(ornament: Ornament, samples: Seq<Color>)
    requires
        ornament.light_mode == LightMode::Blinking,
        ornament.blink_counter == 0,
        samples.len() == BLINK_INTERVAL,
    ensures
        forall|k: int|
            0 <= k < BLINK_INTERVAL ==> {
                &&& (#[trigger] ornament.after_ticks(samples.take(k))).color == ornament.color
                &&& ornament.after_ticks(samples.take(k)).is_visible == ornament.is_visible
            },
        ornament.after_ticks(samples) == (Ornament {
            color: samples.last(),
            blink_counter: 0,
            ..ornament
        }),
{
    assert forall|k: int| 0 <= k < BLINK_INTERVAL implies {
        &&& (#[trigger] ornament.after_ticks(samples.take(k))).color == ornament.color
        &&& ornament.after_ticks(samples.take(k)).is_visible == ornament.is_visible
    } by {
        lemma_blink_holds_color(ornament, samples.take(k));
    }
    lemma_blink_holds_color(ornament, samples.drop_last());
}

/// An ornament that does not blink is lit by its first tick and never
/// changes again: after any positive number of ticks it has the colour,
/// place and counter it began with.
pub proof fn lemma_static_modes_keep_color(ornament: Ornament, samples: Seq<Color>)
    requires
        ornament.light_mode != LightMode::Blinking,
        samples.len() > 0,
    ensures
        ornament.after_ticks(samples) == (Ornament { is_visible: true, ..ornament }),
    decreases samples.len(),
{
    if samples.len() > 1 {
        lemma_static_modes_keep_color(ornament, samples.drop_last());
    } else {
        assert(ornament.after_ticks(samples.drop_last()) == ornament);
    }
}

/// Whether `states` records a run of updates: each ornament but the first
/// is the one before it, one [`Ornament::update`] later.
pub open spec fn is_run(states: Seq<Ornament>) -> bool {
    forall|k: int| 0 <= k < states.len() - 1 ==> (#[trigger] states[k]).steps_to(states[k + 1])
}

/// In a run of updates that starts a blink interval, the ornament has
/// after `k` updates, `k` short of [`BLINK_INTERVAL`], counted them and is
/// otherwise as it was.
proof fn lemma_blink_run_holds(states: Seq<Ornament>, k: int)
    requires
        is_run(states),
        states[0].light_mode == LightMode::Blinking,
        states[0].blink_counter == 0,
        0 <= k < BLINK_INTERVAL,
        k < states.len(),
    ensures
        states[k] == (Ornament { blink_counter: k as u32, ..states[0] }),
    decreases k,
{
    if k > 0 {
        lemma_blink_run_holds(states, k - 1);
        assert(states[k - 1].steps_to(states[k]));
    }
}

/// Updating a blinking ornament [`BLINK_INTERVAL`] times from the start of
/// an interval changes its colour exactly once, with the last update: until
/// then only its counter moves, and then it has a colour of the palette and
/// is at the start of an interval again. Its light is never touched.
pub proof fn lemma_blink_run(states: Seq<Ornament>)
    requires
        is_run(states),
        states.len() == BLINK_INTERVAL + 1,
        states[0].light_mode == LightMode::Blinking,
        states[0].blink_counter == 0,
    ensures
        forall|k: int|
            0 <= k < BLINK_INTERVAL ==> #[trigger] states[k] == (Ornament {
                blink_counter: k as u32,
                ..states[0]
            }),
        states.last() == (Ornament { color: states.last().color, blink_counter: 0, ..states[0] }),
        palette().contains(states.last().color),
{
    assert forall|k: int| 0 <= k < BLINK_INTERVAL implies #[trigger] states[k] == (Ornament {
        blink_counter: k as u32,
        ..states[0]
    }) by {
        lemma_blink_run_holds(states, k);
    }
    assert(states[BLINK_INTERVAL - 1].steps_to(states[BLINK_INTERVAL as int]));
}

/// Updating an ornament that does not blink never changes its colour and
/// leaves it lit: after the first update of a run, and after every later
/// one, it is the ornament it was, lit.
pub proof fn lemma_static_run(states: Seq<Ornament>, k: int)
    requires
        is_run(states),
        states[0].light_mode != LightMode::Blinking,
        1 <= k < states.len(),
    ensures
        states[k] == (Ornament { is_visible: true, ..states[0] }),
    decreases k,
{
    if k > 1 {
        lemma_static_run(states, k - 1);
    }
    assert(states[k - 1].steps_to(states[k]));
}

} // verus!
