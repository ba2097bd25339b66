//! The world: the grids, the ants that walk them, the tick and the render.

use vstd::prelude::*;
use crate::ant::Ant;
use crate::config::{Config, COLOR_BITSHIFT, HUE2_END, HUE2_RANGE, HUE_RANGE};
use crate::field::{column, drawn_hue2, faded, filled, grid, has_cell, is_rect, with_cell, Field};
use crate::hsv2rgb::hsv2rgb;
use crate::model::{lemma_ant_keeps_wf, WorldModel};

verus! {

/// The state of a simulation.
#[derive(Clone, Debug, PartialEq, Eq)]
pub struct World {
    pub config: Config,
    /// Fade counter of every cell, `state[x][y]`.
    pub state: Vec<Vec<u32>>,
    /// Primary hue of every cell.
    pub hue: Vec<Vec<u16>>,
    /// Secondary hue of every cell.
    pub hue2: Vec<Vec<u32>>,
    /// The ants, in the order in which a forward tick moves them.
    pub ants: Vec<Ant>,
    /// Ticks left until the next render is due; a render resets it.
    pub steps_since_draw: u32,
    /// Run backwards: ants move in reverse order and hues step back.
    pub reverse: bool,
}

impl View for World {
    type V = WorldModel;

    open spec fn view(&self) -> WorldModel {
        WorldModel {
            config: self.config,
            field: Field { state: grid(&self.state), hue: grid(&self.hue), hue2: grid(&self.hue2) },
            ants: self.ants@,
            steps_since_draw: self.steps_since_draw,
            reverse: self.reverse,
        }
    }
}

/// Whether a render that has reached the cell `(x, y)` has already passed
/// the cell `(cx, cy)`.
spec fn passed(cx: int, cy: int, x: int, y: int) -> bool {
    cy < y || (cy == y && cx < x)
}

proof fn lemma_shift_is_scale(h: u32)
    by (bit_vector)
    ensures
        h >> 12 == h / 4096,
{
}

/// The cell `(x, y)` is the `y * width + x`-th of the frame.
proof fn lemma_cell_index(x: int, y: int, width: int, height: int)
    requires
        0 <= x < width,
        0 <= y < height,
    ensures
        0 <= y * width + x < width * height,
        (y * width + x) % width == x,
        (y * width + x) / width == y,
{
    assert(0 <= y * width && (y + 1) * width <= height * width && (y + 1) * width == y * width + width
        && height * width == width * height) by (nonlinear_arith)
        requires
            0 <= y < height,
            0 < width,
    ;
    vstd::arithmetic::div_mod::lemma_fundamental_div_mod_converse(y * width + x, width, y, x);
}

impl World {
    /// A fresh world that holds the given ants.
    pub fn with_ants(config: Config, ants: Vec<Ant>) -> (world: World)
        requires
            config.wf(),
            forall|i: int| 0 <= i < ants@.len() ==> (#[trigger] ants@[i]).within(config),
        ensures
            world@ == WorldModel::initial(config, ants@),
            world@.wf(),
    {
        let mut state: Vec<Vec<u32>> = Vec::new();
        let mut hue: Vec<Vec<u16>> = Vec::new();
        let mut hue2: Vec<Vec<u32>> = Vec::new();
        let height: usize = config.height as usize;
        for x in 0..config.width
            invariant
                height == config.height,
                state@.len() == x,
                hue@.len() == x,
                hue2@.len() == x,
                forall|i: int| 0 <= i < x ==> (#[trigger] state@[i])@ == column(height as int, 0u32),
                forall|i: int| 0 <= i < x ==> (#[trigger] hue@[i])@ == column(height as int, 0u16),
                forall|i: int| 0 <= i < x ==> (#[trigger] hue2@[i])@ == column(height as int, HUE2_END),
        {
            let state_column: Vec<u32> = vec![0u32; height];
            let hue_column: Vec<u16> = vec![0u16; height];
            let hue2_column: Vec<u32> = vec![HUE2_END; height];
            state.push(state_column);
            hue.push(hue_column);
            hue2.push(hue2_column);
        }
        World { config, state, hue, hue2, ants, steps_since_draw: config.rate_mul, reverse: false }
    }

    /// A fresh world with `config.ants` ants at random cells.
    pub fn new(config: Config) -> (world: World)
        requires
            config.wf(),
        ensures
            world@ == WorldModel::initial(config, world.ants@),
            world.ants@.len() == config.ants,
            world@.wf(),
    {
        let mut ants: Vec<Ant> = Vec::new();
        for n in 0..config.ants
            invariant
                config.wf(),
                ants@.len() == n,
                forall|i: int| 0 <= i < ants@.len() ==> (#[trigger] ants@[i]).within(config),
        {
            ants.push(Ant::new(&config));
        }
        World::with_ants(config, ants)
    }

    /// Whether the world is well formed: the grids have the configured
    /// size, every cell is in range and every ant stands on the grid. The
    /// constructors, `update` and `draw` keep a world so; a caller that
    /// writes to the fields can ask.
    pub fn is_valid(&self) -> (ok: bool)
        ensures
            ok == self@.wf(),
    {
        if !self.config.is_valid() {
            return false;
        }
        let width: usize = self.config.width as usize;
        let height: usize = self.config.height as usize;
        if self.state.len() != width || self.hue.len() != width || self.hue2.len() != width {
            return false;
        }
        let mut x: usize = 0;
        while x < width
            invariant
                x <= width,
                width == self.config.width,
                height == self.config.height,
                self.state@.len() == width,
                self.hue@.len() == width,
                self.hue2@.len() == width,
                forall|cx: int| 0 <= cx < x ==> (#[trigger] self.state@[cx])@.len() == height,
                forall|cx: int| 0 <= cx < x ==> (#[trigger] self.hue@[cx])@.len() == height,
                forall|cx: int| 0 <= cx < x ==> (#[trigger] self.hue2@[cx])@.len() == height,
                forall|cx: int, cy: int|
                    0 <= cx < x && 0 <= cy < height ==> (#[trigger] self.state@[cx]@[cy]) <= self.config.fade_count,
                forall|cx: int, cy: int| 0 <= cx < x && 0 <= cy < height ==> (#[trigger] self.hue@[cx]@[cy]) < HUE_RANGE,
                forall|cx: int, cy: int|
                    0 <= cx < x && 0 <= cy < height ==> (#[trigger] self.hue2@[cx]@[cy]) < HUE2_RANGE,
            decreases width - x,
        {
            if self.state[x].len() != height || self.hue[x].len() != height || self.hue2[x].len() != height {
                assert(!self@.field.is_rect(width as int, height as int)) by {
                    let _ = self@.field.state[x as int];
                    let _ = self@.field.hue[x as int];
                    let _ = self@.field.hue2[x as int];
                }
                return false;
            }
            let mut y: usize = 0;
            while y < height
                invariant
                    y <= height,
                    x < width,
                    self.state@.len() == width,
                    self.hue@.len() == width,
                    self.hue2@.len() == width,
                    self.state@[x as int]@.len() == height,
                    self.hue@[x as int]@.len() == height,
                    self.hue2@[x as int]@.len() == height,
                    forall|cy: int| 0 <= cy < y ==> (#[trigger] self.state@[x as int]@[cy]) <= self.config.fade_count,
                    forall|cy: int| 0 <= cy < y ==> (#[trigger] self.hue@[x as int]@[cy]) < HUE_RANGE,
                    forall|cy: int| 0 <= cy < y ==> (#[trigger] self.hue2@[x as int]@[cy]) < HUE2_RANGE,
                decreases height - y,
            {
                if self.state[x][y] > self.config.fade_count || self.hue[x][y] >= HUE_RANGE || self.hue2[x][y]
                    >= HUE2_RANGE {
                    assert(!self@.field.in_range(self.config.fade_count)) by {
                        let _ = self@.field.state[x as int][y as int];
                        let _ = self@.field.hue[x as int][y as int];
                        let _ = self@.field.hue2[x as int][y as int];
                    }
                    return false;
                }
                y += 1;
            }
            x += 1;
        }
        let mut i: usize = 0;
        while i < self.ants.len()
            invariant
                i <= self.ants@.len(),
                forall|j: int| 0 <= j < i ==> (#[trigger] self.ants@[j]).within(self.config),
            decreases self.ants@.len() - i,
        {
            if !self.ants[i].is_within(&self.config) {
                assert(!self@.ants[i as int].within(self@.config));
                return false;
            }
            i += 1;
        }
        true
    }

    /// Whether some ant stands on the cell `(x, y)`.
    pub fn ant_at(&self, x: usize, y: usize) -> (found: bool)
        ensures
            found == self@.has_ant_at(x as int, y as int),
    {
        let mut i: usize = 0;
        while i < self.ants.len()
            invariant
                i <= self.ants@.len(),
                forall|j: int| 0 <= j < i ==> !((#[trigger] self.ants@[j]).x == x && self.ants@[j].y == y),
            decreases self.ants@.len() - i,
        {
            let ant: Ant = self.ants[i];
            if ant.x >= 0 && ant.y >= 0 && ant.x as usize == x && ant.y as usize == y {
                return true;
            }
            i += 1;
        }
        false
    }

    /// Renders the world into `frame`, four bytes per cell and row by row,
    /// and lets the cells fade and the secondary hues move on. The frame
    /// must hold exactly four bytes for every cell of the grid.
    pub fn draw(&mut self, frame: &mut [u8])
        requires
            old(self)@.wf(),
            old(frame).len() == 4 * old(self).config.cells(),
        ensures
            final(frame)@ == old(self)@.picture(),
            final(self)@ == old(self)@.drawn(),
            final(self)@.wf(),
    {
        let ghost start = self@;
        let width: usize = self.config.width as usize;
        let height: usize = self.config.height as usize;
        assert(self.config.color_inc2 * self.config.rate_mul <= 0xffff_ffff * 0xffff_ffff) by (nonlinear_arith)
            requires
                0 <= self.config.color_inc2 <= 0xffff_ffff,
                0 <= self.config.rate_mul <= 0xffff_ffff,
        ;
        let step: u64 = self.config.color_inc2 as u64 * self.config.rate_mul as u64;
        let mut x: usize = 0;
        let mut y: usize = 0;
        let mut p: usize = 0;
        while y < height
            invariant
                start.wf(),
                self.config == start.config,
                self.ants@ == start.ants,
                self.reverse == start.reverse,
                width == start.config.width,
                height == start.config.height,
                step == start.config.hue2_step(),
                step <= 0xffff_ffff * 0xffff_ffff,
                frame.len() == 4 * (width * height),
                x < width,
                y <= height,
                y == height ==> x == 0,
                p == y * width + x,
                grid(&self.hue) == start.field.hue,
                is_rect(grid(&self.state), width as int, height as int),
                is_rect(grid(&self.hue2), width as int, height as int),
                forall|cx: int, cy: int|
                    0 <= cx < width && 0 <= cy < height ==> (#[trigger] grid(&self.state)[cx][cy]) == if passed(
                        cx,
                        cy,
                        x as int,
                        y as int,
                    ) {
                        faded(start.field.state[cx][cy])
                    } else {
                        start.field.state[cx][cy]
                    },
                forall|cx: int, cy: int|
                    0 <= cx < width && 0 <= cy < height ==> (#[trigger] grid(&self.hue2)[cx][cy]) == if passed(
                        cx,
                        cy,
                        x as int,
                        y as int,
                    ) {
                        drawn_hue2(start.field.hue2[cx][cy], step as int)
                    } else {
                        start.field.hue2[cx][cy]
                    },
                forall|i: int| 0 <= i < 4 * p ==> (#[trigger] frame@[i]) == start.picture()[i],
            decreases height - y, width - x,
        {
            proof {
                lemma_cell_index(x as int, y as int, width as int, height as int);
                assert(grid(&self.state)[x as int][y as int] == start.field.state[x as int][y as int]);
                assert(grid(&self.hue2)[x as int][y as int] == start.field.hue2[x as int][y as int]);
                assert(grid(&self.hue)[x as int].len() == height);
                lemma_shift_is_scale(self.hue2[x as int][y as int]);
            }
            let rgba: [u8; 4] = if self.config.show_ants && self.ant_at(x, y) {
                [0xffu8, 0xffu8, 0xffu8, 0xffu8]
            } else {
                if self.config.use_hue2 {
                    let (r, g, b) = hsv2rgb((self.hue2[x][y] >> COLOR_BITSHIFT) as u16, 255, 255);
                    [r, g, b, 0xffu8]
                } else {
                    let (r, g, b) = hsv2rgb(self.hue[x][y], 255, 255);
                    [r, g, b, 0xffu8]
                }
            };

            let ghost state_before = grid(&self.state);
            let ghost hue2_before = grid(&self.hue2);
            if self.state[x][y] != 0 {
                self.state[x][y] -= 1;
            }
            let hue2_old: u32 = self.hue2[x][y];
            let moved: u64 = hue2_old as u64 + step;
            if hue2_old <= HUE2_END && moved > HUE2_END as u64 {
                self.hue2[x][y] = HUE2_END;
            } else {
                self.hue2[x][y] = (moved % HUE2_RANGE as u64) as u32;
            }
            assert(grid(&self.state) =~~= with_cell(
                state_before,
                x as int,
                y as int,
                faded(state_before[x as int][y as int]),
            ));
            assert(grid(&self.hue2) =~~= with_cell(
                hue2_before,
                x as int,
                y as int,
                drawn_hue2(hue2_before[x as int][y as int], step as int),
            ));

            frame[4 * p] = rgba[0];
            frame[4 * p + 1] = rgba[1];
            frame[4 * p + 2] = rgba[2];
            frame[4 * p + 3] = rgba[3];

            p += 1;
            x += 1;
            if x >= width {
                x = 0;
                y += 1;
            }
            assert(p == y * width + x) by (nonlinear_arith)
                requires
                    p == y * width + x || (x == 0 && y >= 1 && p == (y - 1) * width + width),
            ;
        }
        self.steps_since_draw = self.config.rate_mul;
        assert(p == start.config.cells()) by (nonlinear_arith)
            requires
                p == y * width + x,
                y == height,
                x == 0,
                start.config.cells() == width * height,
        ;
        assert(self@.field.state =~~= start.drawn().field.state);
        assert(self@.field.hue2 =~~= start.drawn().field.hue2);
    }

    /// Advances the simulation by one tick: the countdown to the next
    /// render drops by one, and every ant moves once, in order.
    pub fn update(&mut self)
        requires
            old(self)@.wf(),
        ensures
            final(self)@ == old(self)@.updated(),
            final(self)@.wf(),
            final(self).config == old(self).config,
            final(self).reverse == old(self).reverse,
            final(self).ants@.len() == old(self).ants@.len(),
            final(self).steps_since_draw == if old(self).steps_since_draw > 0 {
                old(self).steps_since_draw - 1
            } else {
                0
            },
    {
        if self.steps_since_draw > 0 {
            self.steps_since_draw -= 1;
        }
        let ghost start = self@;
        let count: usize = self.ants.len();
        let mut k: usize = 0;
        while k < count
            invariant
                k <= count,
                count == start.ants.len(),
                count == self.ants@.len(),
                self.reverse == start.reverse,
                self.config == start.config,
                self.steps_since_draw == start.steps_since_draw,
                start.wf(),
                self@ == start.after_ants(k as nat),
                self@.wf(),
            decreases count - k,
        {
            let i: usize = if self.reverse == false {
                k
            } else {
                count - 1 - k
            };
            let ghost before = self@;
            proof {
                lemma_ant_keeps_wf(before, i as int);
            }
            self.ants[i].update(
                &mut self.state,
                &mut self.hue,
                &mut self.hue2,
                self.steps_since_draw,
                self.reverse,
                &self.config,
            );
            proof {
                let ant = before.ants[i as int];
                assert(self@ =~= (WorldModel {
                    field: ant.visit(before.field, before.steps_since_draw, before.reverse, before.config),
                    ants: before.ants.update(i as int, ant.stepped(before.field, before.config)),
                    ..before
                }));
            }
            k += 1;
        }
    }
}

} // verus!
