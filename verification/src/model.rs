//! The mathematical model of a world, what a tick and a render make of it,
//! and what holds of them over many calls.

use vstd::prelude::*;
use crate::ant::{lemma_wrap, Ant};
use crate::config::{Config, HUE2_END, HUE2_RANGE, HUE2_SCALE, HUE_RANGE};
use crate::field::{drawn_hue2, faded, faded_by, filled, has_cell, lemma_faded_by, Field};
use crate::hsv2rgb::rgb_of;

verus! {

/// The mathematical model of a world.
#[verifier::ext_equal]
pub struct WorldModel {
    pub config: Config,
    pub field: Field,
    pub ants: Seq<Ant>,
    pub steps_since_draw: u32,
    pub reverse: bool,
}

impl WorldModel {
    /// The grids have the configured size, every cell is in range, and
    /// every ant stands on the grid facing one of the four directions.
    pub open spec fn wf(self) -> bool {
        &&& self.config.wf()
        &&& self.field.is_rect(self.config.width as int, self.config.height as int)
        &&& self.field.in_range(self.config.fade_count)
        &&& forall|i: int| 0 <= i < self.ants.len() ==> (#[trigger] self.ants[i]).within(self.config)
    }

    /// The world that a simulation starts from: every cell off, with primary
    /// hue 0 and the secondary hue settled at `HUE2_END`, and a render due
    /// after `rate_mul` ticks.
    pub open spec fn initial(config: Config, ants: Seq<Ant>) -> WorldModel {
        WorldModel {
            config,
            field: Field {
                state: filled(config.width as int, config.height as int, 0u32),
                hue: filled(config.width as int, config.height as int, 0u16),
                hue2: filled(config.width as int, config.height as int, HUE2_END),
            },
            ants,
            steps_since_draw: config.rate_mul,
            reverse: false,
        }
    }
}

impl WorldModel {
    /// The index of the ant that moves `k`-th in a tick: front to back, or
    /// back to front when running in reverse.
    pub open spec fn mover(self, k: int) -> int {
        if self.reverse {
            self.ants.len() - 1 - k
        } else {
            k
        }
    }

    /// The world after the first `k` ants of a tick have moved. Each ant
    /// sees the cells as the ants before it left them.
    pub open spec fn after_ants(self, k: nat) -> WorldModel
        decreases k,
    {
        if k == 0 {
            self
        } else {
            let before = self.after_ants((k - 1) as nat);
            let i = self.mover(k - 1);
            let ant = before.ants[i];
            WorldModel {
                field: ant.visit(before.field, before.steps_since_draw, before.reverse, before.config),
                ants: before.ants.update(i, ant.stepped(before.field, before.config)),
                ..before
            }
        }
    }

    /// The world with the countdown to the next render dropped by one,
    /// stopping at 0.
    pub open spec fn counted(self) -> WorldModel {
        WorldModel {
            steps_since_draw: if self.steps_since_draw > 0 {
                (self.steps_since_draw - 1) as u32
            } else {
                0
            },
            ..self
        }
    }

    /// The world after one tick: the countdown drops, and then every ant
    /// moves once.
    pub open spec fn updated(self) -> WorldModel {
        self.counted().after_ants(self.ants.len())
    }
}

/// Whether one of the ants stands on the cell `(x, y)`.
pub open spec fn any_at(ants: Seq<Ant>, x: int, y: int) -> bool {
    exists|i: int| 0 <= i < ants.len() && (#[trigger] ants[i]).x == x && ants[i].y == y
}

impl WorldModel {
    /// Whether some ant stands on the cell `(x, y)`.
    pub open spec fn has_ant_at(self, x: int, y: int) -> bool {
        any_at(self.ants, x, y)
    }

    /// The hue that a render shows for the cell `(x, y)`: the secondary hue
    /// scaled down to the colour wheel, or the primary hue.
    pub open spec fn shown_hue(self, x: int, y: int) -> u16 {
        if self.config.use_hue2 {
            (self.field.hue2[x][y] / HUE2_SCALE) as u16
        } else {
            self.field.hue[x][y]
        }
    }

    /// The four bytes, red, green, blue and alpha, of the pixel of the cell
    /// `(x, y)`: opaque white where ants are shown and one stands on the
    /// cell, the cell's hue at full saturation and value anywhere else.
    pub open spec fn pixel(self, x: int, y: int) -> Seq<u8> {
        if self.config.show_ants && self.has_ant_at(x, y) {
            seq![0xffu8, 0xffu8, 0xffu8, 0xffu8]
        } else {
            let c = rgb_of(self.shown_hue(x, y), 255, 255);
            seq![c.0, c.1, c.2, 0xffu8]
        }
    }

    /// The frame that a render writes: four bytes per cell, row by row.
    pub open spec fn picture(self) -> Seq<u8> {
        Seq::new(
            (4 * self.config.cells()) as nat,
            |i: int| self.pixel((i / 4) % (self.config.width as int), (i / 4) / (self.config.width as int))[i % 4],
        )
    }

    /// The world after a render: every cell that is on has faded by one,
    /// every secondary hue has moved by the steps of one frame, and the
    /// countdown to the next render starts again.
    pub open spec fn drawn(self) -> WorldModel {
        WorldModel {
            field: Field {
                state: self.field.state.map_values(|c: Seq<u32>| c.map_values(|s: u32| faded(s))),
                hue: self.field.hue,
                hue2: self.field.hue2.map_values(
                    |c: Seq<u32>| c.map_values(|h: u32| drawn_hue2(h, self.config.hue2_step())),
                ),
            },
            steps_since_draw: self.config.rate_mul,
            ..self
        }
    }
}

impl WorldModel {
    /// The world after `n` renders with no tick in between.
    pub open spec fn after_draws(self, n: nat) -> WorldModel
        decreases n,
    {
        if n == 0 {
            self
        } else {
            self.after_draws((n - 1) as nat).drawn()
        }
    }
}

/// Renders keep the shape of the grids, fade every cell by one each, and
/// move no ant and no primary hue.
pub proof fn lemma_after_draws(w: WorldModel, n: nat, x: int, y: int)
    requires
        has_cell(w.field.state, x, y),
    ensures
        has_cell(w.after_draws(n).field.state, x, y),
        w.after_draws(n).field.state[x][y] == faded_by(w.field.state[x][y], n),
        w.after_draws(n).field.hue == w.field.hue,
        w.after_draws(n).ants == w.ants,
        w.after_draws(n).config == w.config,
    decreases n,
{
    if n > 0 {
        lemma_after_draws(w, (n - 1) as nat, x, y);
    }
}

/// A cell that was turned on is off again after exactly `fade_count`
/// renders in a row, and on the way it loses one count per render.
pub proof fn lemma_cell_fades(w: WorldModel, x: int, y: int, n: nat)
    requires
        has_cell(w.field.state, x, y),
        w.field.state[x][y] == w.config.fade_count,
        n <= w.config.fade_count,
    ensures
        w.after_draws(n).field.state[x][y] == w.config.fade_count - n,
        w.after_draws(w.config.fade_count as nat).field.state[x][y] == 0,
{
    lemma_after_draws(w, n, x, y);
    lemma_after_draws(w, w.config.fade_count as nat, x, y);
    lemma_faded_by(w.field.state[x][y], n);
    lemma_faded_by(w.field.state[x][y], w.config.fade_count as nat);
}

/// A render stops the secondary hue of a cell at `HUE2_END` when the step
/// of one frame would carry it from at or below `HUE2_END` to beyond.
pub proof fn lemma_render_settles(w: WorldModel, x: int, y: int)
    requires
        has_cell(w.field.hue2, x, y),
        w.field.hue2[x][y] <= HUE2_END < w.field.hue2[x][y] + w.config.hue2_step(),
    ensures
        w.drawn().field.hue2[x][y] == HUE2_END,
{
}

/// An ant's visit keeps a field in shape and in range, and its step keeps
/// the ant on the grid.
pub proof fn lemma_ant_keeps_wf(w: WorldModel, i: int)
    requires
        w.wf(),
        0 <= i < w.ants.len(),
    ensures
        (WorldModel {
            field: w.ants[i].visit(w.field, w.steps_since_draw, w.reverse, w.config),
            ants: w.ants.update(i, w.ants[i].stepped(w.field, w.config)),
            ..w
        }).wf(),
{
    let ant = w.ants[i];
    let x = ant.x as int;
    let y = ant.y as int;
    let width = w.config.width as int;
    let height = w.config.height as int;
    let turned = ant.turned(w.field.state[x][y]);
    lemma_wrap(turned.x as int, 1, width);
    lemma_wrap(turned.x as int, -1, width);
    lemma_wrap(turned.x as int, 0, width);
    lemma_wrap(turned.y as int, 1, height);
    lemma_wrap(turned.y as int, -1, height);
    lemma_wrap(turned.y as int, 0, height);
}

/// While a tick runs, the ants that have moved have left the world well
/// formed, and an ant that has not moved yet stands where it stood when the
/// tick began.
pub proof fn lemma_after_ants(w: WorldModel, k: nat)
    requires
        w.wf(),
        k <= w.ants.len(),
    ensures
        w.after_ants(k).wf(),
        w.after_ants(k).config == w.config,
        w.after_ants(k).reverse == w.reverse,
        w.after_ants(k).steps_since_draw == w.steps_since_draw,
        w.after_ants(k).ants.len() == w.ants.len(),
        forall|m: int| k <= m < w.ants.len() ==> w.after_ants(k).ants[#[trigger] w.mover(m)] == w.ants[w.mover(m)],
    decreases k,
{
    if k > 0 {
        lemma_after_ants(w, (k - 1) as nat);
        let before = w.after_ants((k - 1) as nat);
        let i = w.mover(k - 1);
        lemma_ant_keeps_wf(before, i);
        assert forall|m: int| k <= m < w.ants.len() implies w.after_ants(k).ants[#[trigger] w.mover(m)]
            == w.ants[w.mover(m)] by {
            assert(w.mover(m) != i);
        }
    }
}

/// While a tick runs, a cell on which no ant stood when the tick began is
/// as it was.
pub proof fn lemma_after_ants_spares(w: WorldModel, k: nat, x: int, y: int)
    requires
        w.wf(),
        k <= w.ants.len(),
        has_cell(w.field.state, x, y),
        !w.has_ant_at(x, y),
    ensures
        w.after_ants(k).field.state[x][y] == w.field.state[x][y],
        w.after_ants(k).field.hue[x][y] == w.field.hue[x][y],
        w.after_ants(k).field.hue2[x][y] == w.field.hue2[x][y],
    decreases k,
{
    if k > 0 {
        lemma_after_ants_spares(w, (k - 1) as nat, x, y);
        lemma_after_ants(w, (k - 1) as nat);
        let before = w.after_ants((k - 1) as nat);
        let i = w.mover(k - 1);
        let ant = before.ants[i];
        assert(ant == w.ants[i]);
        assert(!(ant.x == x && ant.y == y));
    }
}

/// A tick keeps a world well formed, with the same ants in number, the same
/// configuration and the same direction of time.
pub proof fn lemma_tick_keeps_wf(w: WorldModel)
    requires
        w.wf(),
    ensures
        w.updated().wf(),
        w.updated().config == w.config,
        w.updated().reverse == w.reverse,
        w.updated().ants.len() == w.ants.len(),
{
    lemma_after_ants(w.counted(), w.ants.len());
}

/// A tick changes no cell but those on which ants stood when it began.
pub proof fn lemma_tick_spares_empty_cells(w: WorldModel, x: int, y: int)
    requires
        w.wf(),
        has_cell(w.field.state, x, y),
        !w.has_ant_at(x, y),
    ensures
        w.updated().field.state[x][y] == w.field.state[x][y],
        w.updated().field.hue[x][y] == w.field.hue[x][y],
        w.updated().field.hue2[x][y] == w.field.hue2[x][y],
{
    lemma_after_ants_spares(w.counted(), w.ants.len(), x, y);
}

/// A render keeps a world well formed and moves no ant.
pub proof fn lemma_render_keeps_wf(w: WorldModel)
    requires
        w.wf(),
    ensures
        w.drawn().wf(),
        w.drawn().ants == w.ants,
        w.drawn().config == w.config,
        w.drawn().reverse == w.reverse,
        w.drawn().field.hue == w.field.hue,
{
    assert forall|x: int, y: int| has_cell(w.drawn().field.hue2, x, y) implies (#[trigger] w.drawn().field.hue2[x][y])
        < HUE2_RANGE by {
        assert(has_cell(w.field.hue2, x, y));
    }
    assert forall|x: int, y: int| has_cell(w.drawn().field.state, x, y) implies (#[trigger] w.drawn().field.state[x][y])
        <= w.config.fade_count by {
        assert(has_cell(w.field.state, x, y));
    }
}

} // verus!
