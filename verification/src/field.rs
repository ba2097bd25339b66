//! The cell grids and the rules that change a single cell.
//!
//! A grid is a vector of columns: `g[x][y]` is the cell at column `x`, row
//! `y`. Its model is a sequence of sequences.

use vstd::prelude::*;
use crate::config::{HUE2_END, HUE2_RANGE, HUE2_START, HUE_RANGE};

verus! {

/// The model of a grid: the view of every column.
pub open spec fn grid<T>(g: &Vec<Vec<T>>) -> Seq<Seq<T>> {
    Seq::new(g@.len(), |x: int| g@[x]@)
}

/// Whether `(x, y)` names a cell of the grid.
pub open spec fn has_cell<T>(g: Seq<Seq<T>>, x: int, y: int) -> bool {
    0 <= x < g.len() && 0 <= y < g[x].len()
}

/// The grid with the cell at `(x, y)` replaced by `v`.
pub open spec fn with_cell<T>(g: Seq<Seq<T>>, x: int, y: int, v: T) -> Seq<Seq<T>> {
    g.update(x, g[x].update(y, v))
}

/// Whether the grid has `width` columns of `height` cells each.
pub open spec fn is_rect<T>(g: Seq<Seq<T>>, width: int, height: int) -> bool {
    &&& g.len() == width
    &&& forall|x: int| 0 <= x < width ==> (#[trigger] g[x]).len() == height
}

/// A column of `height` cells that all hold `v`.
pub open spec fn column<T>(height: int, v: T) -> Seq<T> {
    Seq::new(height as nat, |y: int| v)
}

/// The grid of the given size that holds `v` in every cell.
pub open spec fn filled<T>(width: int, height: int, v: T) -> Seq<Seq<T>> {
    Seq::new(width as nat, |x: int| column(height, v))
}

/// The three grids of a world.
#[verifier::ext_equal]
pub struct Field {
    /// Fade counters: 0 is off, anything else is on and fading.
    pub state: Seq<Seq<u32>>,
    /// Primary hue, moved by visits.
    pub hue: Seq<Seq<u16>>,
    /// Secondary hue, moved by time.
    pub hue2: Seq<Seq<u32>>,
}

impl Field {
    /// All three grids have the given size.
    pub open spec fn is_rect(self, width: int, height: int) -> bool {
        &&& is_rect(self.state, width, height)
        &&& is_rect(self.hue, width, height)
        &&& is_rect(self.hue2, width, height)
    }

    /// Every cell keeps its counter within `0..=fade_count` and its hues on
    /// their wheels.
    pub open spec fn in_range(self, fade_count: u32) -> bool {
        &&& forall|x: int, y: int| has_cell(self.state, x, y) ==> (#[trigger] self.state[x][y]) <= fade_count
        &&& forall|x: int, y: int| has_cell(self.hue, x, y) ==> (#[trigger] self.hue[x][y]) < HUE_RANGE
        &&& forall|x: int, y: int| has_cell(self.hue2, x, y) ==> (#[trigger] self.hue2[x][y]) < HUE2_RANGE
    }
}

/// A visit toggles a cell: off becomes freshly on, on becomes off.
pub open spec fn flipped(state: u32, fade_count: u32) -> u32 {
    if state == 0 {
        fade_count
    } else {
        0
    }
}

/// A render lets a cell that is on fade by one.
pub open spec fn faded(state: u32) -> u32 {
    if state != 0 {
        (state - 1) as u32
    } else {
        0
    }
}

/// The primary hue of a cell after a visit: one increment forward, or one
/// back when running in reverse, on the wheel of `HUE_RANGE` steps.
pub open spec fn visited_hue(hue: u16, color_inc: u16, reverse: bool) -> u16 {
    if reverse {
        ((hue - color_inc) % (HUE_RANGE as int)) as u16
    } else {
        ((hue + color_inc) % (HUE_RANGE as int)) as u16
    }
}

/// The secondary hue that a visit writes. It depends on the ticks left until
/// the next render, not on what the cell held.
pub open spec fn visited_hue2(color_inc2: u32, steps_since_draw: u32) -> u32 {
    ((HUE2_START + color_inc2 * steps_since_draw) % (HUE2_RANGE as int)) as u32
}

/// The secondary hue of a cell after a render moved it by `step`. A hue at or
/// below `HUE2_END` that would pass it stops there; any other wraps around.
pub open spec fn drawn_hue2(hue2: u32, step: int) -> u32 {
    if hue2 <= HUE2_END && hue2 + step > HUE2_END {
        HUE2_END
    } else {
        ((hue2 + step) % (HUE2_RANGE as int)) as u32
    }
}

/// The primary hue of a cell after `n` visits.
pub open spec fn hue_after_visits(hue: u16, color_inc: u16, reverse: bool, n: nat) -> u16
    decreases n,
{
    if n == 0 {
        hue
    } else {
        visited_hue(hue_after_visits(hue, color_inc, reverse, (n - 1) as nat), color_inc, reverse)
    }
}

/// The state of a cell after `n` renders.
pub open spec fn faded_by(state: u32, n: nat) -> u32
    decreases n,
{
    if n == 0 {
        state
    } else {
        faded(faded_by(state, (n - 1) as nat))
    }
}

/// After `n >= 1` visits a hue stands `n` increments further along the
/// wheel, forwards or, in reverse, backwards.
pub proof fn lemma_hue_after_visits(hue: u16, color_inc: u16, reverse: bool, n: nat)
    requires
        n >= 1,
    ensures
        hue_after_visits(hue, color_inc, reverse, n) == if reverse {
            (hue - n * color_inc) % (HUE_RANGE as int)
        } else {
            (hue + n * color_inc) % (HUE_RANGE as int)
        },
    decreases n,
{
    let travelled = (n - 1) * color_inc;
    assert(n * color_inc == travelled + color_inc) by (nonlinear_arith)
        requires
            travelled == (n - 1) * color_inc,
    ;
    if n == 1 {
        assert(hue_after_visits(hue, color_inc, reverse, 0) == hue);
    } else {
        lemma_hue_after_visits(hue, color_inc, reverse, (n - 1) as nat);
    }
}

/// Visiting a cell `HUE_RANGE / color_inc` times takes its hue once around
/// the wheel and back to where it was, forwards and in reverse, whenever the
/// increment divides the wheel.
pub proof fn lemma_hue_wraparound(hue: u16, color_inc: u16, reverse: bool)
    requires
        hue < HUE_RANGE,
        color_inc > 0,
        HUE_RANGE % color_inc == 0,
    ensures
        hue_after_visits(hue, color_inc, reverse, (HUE_RANGE / color_inc) as nat) == hue,
{
    let q = HUE_RANGE as int / color_inc as int;
    vstd::arithmetic::div_mod::lemma_fundamental_div_mod(HUE_RANGE as int, color_inc as int);
    assert(q >= 1 && q * color_inc == HUE_RANGE) by (nonlinear_arith)
        requires
            HUE_RANGE == color_inc * q,
            HUE_RANGE == 1536,
            color_inc > 0,
    ;
    let n = q as nat;
    lemma_hue_after_visits(hue, color_inc, reverse, n);
}

/// A cell fades by exactly one per render until it is off, and then stays
/// off: after `n` renders a counter `state` stands at `state - n`, or at 0
/// once `n` has reached it.
pub proof fn lemma_faded_by(state: u32, n: nat)
    ensures
        faded_by(state, n) == if n <= state {
            state - n
        } else {
            0
        },
    decreases n,
{
    if n > 0 {
        lemma_faded_by(state, (n - 1) as nat);
    }
}

/// A secondary hue at or below `HUE2_END` that a render would carry past it
/// settles on `HUE2_END` exactly; from anywhere else it moves on by the full
/// step, around the wheel.
pub proof fn lemma_hue2_settles(hue2: u32, step: int)
    requires
        step >= 0,
    ensures
        hue2 <= HUE2_END < hue2 + step ==> drawn_hue2(hue2, step) == HUE2_END,
        !(hue2 <= HUE2_END < hue2 + step) ==> drawn_hue2(hue2, step) == (hue2 + step) % (HUE2_RANGE as int),
        drawn_hue2(hue2, step) < HUE2_RANGE,
{
}

} // verus!
