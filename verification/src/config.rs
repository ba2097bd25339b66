//! The numbers that shape a simulation, and the fixed scales of the two hue
//! fields.

use vstd::prelude::*;

verus! {

/// Number of steps on the colour wheel: six sextants of 256.
pub const HUE_RANGE: u16 = 1536;

/// The secondary hue is kept with this many extra bits of precision.
pub const COLOR_BITSHIFT: u32 = 12;

/// One step of the primary hue in steps of the secondary,
/// `1 << COLOR_BITSHIFT`.
pub const HUE2_SCALE: u32 = 4096;

/// Number of steps of the secondary hue, `HUE_RANGE << COLOR_BITSHIFT`.
pub const HUE2_RANGE: u32 = 6_291_456;

/// Secondary hue that a visit at the moment of a render leaves behind,
/// `1400 << COLOR_BITSHIFT`.
pub const HUE2_START: u32 = 5_734_400;

/// Secondary hue at which the field settles once per revolution,
/// `900 << COLOR_BITSHIFT`.
pub const HUE2_END: u32 = 3_686_400;

/// The parameters of a simulation.
#[derive(Clone, Copy, Debug, PartialEq, Eq)]
pub struct Config {
    /// Grid width in cells. Default 128.
    pub width: u32,
    /// Grid height in cells. Default 64.
    pub height: u32,
    /// Ticks per rendered frame. Default 4.
    pub rate_mul: u32,
    /// Number of ants a new world starts with. Default 2.
    pub ants: u32,
    /// Hue steps added to a cell on every visit. Default 1.
    pub color_inc: u16,
    /// Secondary hue steps per tick. Default 512.
    pub color_inc2: u32,
    /// Renders a cell takes to fade after it was turned on. Default 2000.
    pub fade_count: u32,
    /// Draw the ants as white pixels. Default off.
    pub show_ants: bool,
    /// Render the secondary hue field instead of the primary. Default on.
    pub use_hue2: bool,
}

impl Config {
    /// A grid must have at least one cell, and its coordinates must fit the
    /// signed coordinates of an ant.
    pub open spec fn wf(&self) -> bool {
        &&& 1 <= self.width <= i32::MAX
        &&& 1 <= self.height <= i32::MAX
    }

    /// Number of cells of the grid.
    pub open spec fn cells(&self) -> int {
        self.width * self.height
    }

    /// Secondary hue steps that pass between two renders.
    pub open spec fn hue2_step(&self) -> int {
        self.color_inc2 * self.rate_mul
    }

    /// Whether the configuration describes a grid that a world can be built on.
    pub fn is_valid(&self) -> (ok: bool)
        ensures
            ok == self.wf(),
    {
        1 <= self.width && self.width <= 0x7fff_ffff && 1 <= self.height && self.height
            <= 0x7fff_ffff
    }
}

impl Default for Config {
    fn default() -> (config: Config)
        ensures
            config == (Config {
                width: 128,
                height: 64,
                rate_mul: 4,
                ants: 2,
                color_inc: 1,
                color_inc2: 512,
                fade_count: 2000,
                show_ants: false,
                use_hue2: true,
            }),
            config.wf(),
    {
        Config {
            width: 128,
            height: 64,
            rate_mul: 4,
            ants: 2,
            color_inc: 1,
            color_inc2: 512,
            fade_count: 2000,
            show_ants: false,
            use_hue2: true,
        }
    }
}

} // verus!
