//! The ant: a position, a heading, and the rule it follows on every tick.

use vstd::prelude::*;
use crate::config::{Config, HUE2_RANGE, HUE2_START, HUE_RANGE};
use crate::field::{flipped, grid, has_cell, visited_hue, visited_hue2, with_cell, Field};

verus! {

/// An ant on the grid.
#[derive(Clone, Copy, Debug, PartialEq, Eq)]
pub struct Ant {
    /// Column of the cell the ant stands on.
    pub x: i32,
    /// Row of the cell the ant stands on.
    pub y: i32,
    /// Heading: 0 faces +x, 1 faces -y, 2 faces -x and 3 faces +y, so adding
    /// one is a quarter turn clockwise where y grows upwards.
    pub direction: u8,
}

/// A draw of `rand::random::<u32>()`, which samples the thread-local
/// generator. Any value may come back, so nothing is claimed of it.
#[verifier::external_body]
fn random_u32() -> (draw: u32) {
    rand::random::<u32>()
}

/// A draw of `rand::random::<u8>()`, which samples the thread-local
/// generator. Any value may come back, so nothing is claimed of it.
#[verifier::external_body]
fn random_u8() -> (draw: u8) {
    rand::random::<u8>()
}

/// A coordinate one step beyond either edge of `0..size` comes back on the
/// opposite edge; any other stays.
pub proof fn lemma_wrap(c: int, d: int, size: int)
    requires
        0 <= c < size,
        -1 <= d <= 1,
    ensures
        (c + d) % size == if c + d < 0 {
            size - 1
        } else if c + d >= size {
            0
        } else {
            c + d
        },
{
    if c + d < 0 {
        vstd::arithmetic::div_mod::lemma_mod_add_multiples_vanish(-1, size);
        vstd::arithmetic::div_mod::lemma_small_mod((size - 1) as nat, size as nat);
    } else if c + d >= size {
        vstd::arithmetic::div_mod::lemma_mod_self_0(size);
    } else {
        vstd::arithmetic::div_mod::lemma_small_mod((c + d) as nat, size as nat);
    }
}

impl Ant {
    /// The ant stands on a cell of the configured grid and faces one of the
    /// four directions.
    pub open spec fn within(self, config: Config) -> bool {
        &&& 0 <= self.x < config.width
        &&& 0 <= self.y < config.height
        &&& self.direction < 4
    }

    /// The ant stands on a cell of the grid `g`.
    pub open spec fn on<T>(self, g: Seq<Seq<T>>) -> bool {
        has_cell(g, self.x as int, self.y as int)
    }

    /// The ant after the turn that a cell with counter `cell` asks for: a
    /// quarter clockwise on a cell that is off, a quarter counter-clockwise
    /// on one that is on.
    pub open spec fn turned(self, cell: u32) -> Ant {
        Ant {
            direction: if cell == 0 {
                ((self.direction + 1) % 4) as u8
            } else {
                ((self.direction + 3) % 4) as u8
            },
            ..self
        }
    }

    /// The ant after one move in its direction on the torus.
    pub open spec fn advanced(self, config: Config) -> Ant {
        let dx: int = if self.direction == 0 {
            1
        } else if self.direction == 2 {
            -1
        } else {
            0
        };
        let dy: int = if self.direction == 3 {
            1
        } else if self.direction == 1 {
            -1
        } else {
            0
        };
        Ant {
            x: ((self.x + dx) % (config.width as int)) as i32,
            y: ((self.y + dy) % (config.height as int)) as i32,
            direction: self.direction,
        }
    }

    /// The ant after an about-turn and one move.
    pub open spec fn reversed(self, config: Config) -> Ant {
        (Ant { direction: ((self.direction + 2) % 4) as u8, ..self }).advanced(config)
    }

    /// The ant after one tick on a field: it turns by the cell it stands on,
    /// then moves.
    pub open spec fn stepped(self, f: Field, config: Config) -> Ant {
        self.turned(f.state[self.x as int][self.y as int]).advanced(config)
    }

    /// The field after the ant's visit: the cell under the ant is toggled
    /// and recoloured, every other cell is as before.
    pub open spec fn visit(self, f: Field, steps_since_draw: u32, reverse: bool, config: Config) -> Field {
        let x = self.x as int;
        let y = self.y as int;
        Field {
            state: with_cell(f.state, x, y, flipped(f.state[x][y], config.fade_count)),
            hue: with_cell(f.hue, x, y, visited_hue(f.hue[x][y], config.color_inc, reverse)),
            hue2: with_cell(f.hue2, x, y, visited_hue2(config.color_inc2, steps_since_draw)),
        }
    }

    /// Whether the ant stands on the configured grid and faces one of the
    /// four directions.
    pub fn is_within(&self, config: &Config) -> (ok: bool)
        ensures
            ok == self.within(*config),
    {
        0 <= self.x && (self.x as i64) < config.width as i64 && 0 <= self.y && (self.y as i64)
            < config.height as i64 && self.direction < 4
    }

    /// The ant that three random draws place on the grid: each draw is
    /// reduced modulo the size of what it chooses from.
    pub fn from_draws(x_draw: u32, y_draw: u32, direction_draw: u8, config: &Config) -> (ant: Ant)
        requires
            config.wf(),
        ensures
            ant.x == x_draw % config.width,
            ant.y == y_draw % config.height,
            ant.direction == direction_draw % 4,
            ant.within(*config),
    {
        Ant {
            x: (x_draw % config.width) as i32,
            y: (y_draw % config.height) as i32,
            direction: direction_draw % 4,
        }
    }

    /// An ant at a random cell, facing a random direction.
    pub fn new(config: &Config) -> (ant: Ant)
        requires
            config.wf(),
        ensures
            ant.within(*config),
    {
        let mut ret = Ant { x: 0, y: 0, direction: random_u8() % 4 };
        ret.randomize(config);
        ret
    }

    /// One tick of the ant: turn, flip the cell, recolour it, move on.
    pub fn update(
        &mut self,
        state: &mut Vec<Vec<u32>>,
        hue: &mut Vec<Vec<u16>>,
        hue2: &mut Vec<Vec<u32>>,
        steps_since_draw: u32,
        reverse: bool,
        config: &Config,
    )
        requires
            config.wf(),
            old(self).within(*config),
            old(self).on(grid(old(state))),
            old(self).on(grid(old(hue))),
            old(self).on(grid(old(hue2))),
        ensures
            *final(self) == old(self).stepped(
                (Field { state: grid(old(state)), hue: grid(old(hue)), hue2: grid(old(hue2)) }),
                *config,
            ),
            (Field { state: grid(final(state)), hue: grid(final(hue)), hue2: grid(final(hue2)) })
                == old(self).visit(
                (Field { state: grid(old(state)), hue: grid(old(hue)), hue2: grid(old(hue2)) }),
                steps_since_draw,
                reverse,
                *config,
            ),
            final(self).within(*config),
    {
        self.turn(state);
        self.flip(state, config);
        self.color(hue, hue2, steps_since_draw, reverse, config);
        self.advance(config);
    }

    /// Turns about and moves one cell.
    pub fn reverse(&mut self, config: &Config)
        requires
            config.wf(),
            old(self).within(*config),
        ensures
            *final(self) == old(self).reversed(*config),
            final(self).within(*config),
    {
        self.direction = (self.direction + 2) % 4;
        self.advance(config);
    }

    /// Turns a quarter: clockwise if the cell under the ant is off,
    /// counter-clockwise if it is on.
    pub fn turn(&mut self, state: &mut Vec<Vec<u32>>)
        requires
            old(self).direction < 4,
            old(self).on(grid(old(state))),
        ensures
            *final(self) == old(self).turned(grid(old(state))[old(self).x as int][old(self).y as int]),
            final(self).direction < 4,
            *final(state) == *old(state),
    {
        if state[self.x as usize][self.y as usize] == 0 {
            if self.direction == 3 {
                self.direction = 0;
            } else {
                self.direction += 1;
            }
        } else {
            if self.direction == 0 {
                self.direction = 3;
            } else {
                self.direction -= 1;
            }
        }
    }

    /// Toggles the cell under the ant between off and freshly on.
    pub fn flip(&mut self, state: &mut Vec<Vec<u32>>, config: &Config)
        requires
            old(self).on(grid(old(state))),
        ensures
            grid(final(state)) == with_cell(
                grid(old(state)),
                old(self).x as int,
                old(self).y as int,
                flipped(grid(old(state))[old(self).x as int][old(self).y as int], config.fade_count),
            ),
            *final(self) == *old(self),
    {
        let ghost before = grid(state);
        let x: usize = self.x as usize;
        let y: usize = self.y as usize;
        if state[x][y] == 0 {
            state[x][y] = config.fade_count;
        } else {
            state[x][y] = 0;
        }
        assert(grid(state) =~~= with_cell(
            before,
            x as int,
            y as int,
            flipped(before[x as int][y as int], config.fade_count),
        ));
    }

    /// Recolours the cell under the ant: the primary hue moves one increment
    /// along the wheel, backwards when `reverse` is set, and the secondary hue is
    /// set from the ticks left until the next render.
    pub fn color(
        &mut self,
        hue: &mut Vec<Vec<u16>>,
        hue2: &mut Vec<Vec<u32>>,
        steps_since_draw: u32,
        reverse: bool,
        config: &Config,
    )
        requires
            old(self).on(grid(old(hue))),
            old(self).on(grid(old(hue2))),
        ensures
            grid(final(hue)) == with_cell(
                grid(old(hue)),
                old(self).x as int,
                old(self).y as int,
                visited_hue(
                    grid(old(hue))[old(self).x as int][old(self).y as int],
                    config.color_inc,
                    reverse,
                ),
            ),
            grid(final(hue2)) == with_cell(
                grid(old(hue2)),
                old(self).x as int,
                old(self).y as int,
                visited_hue2(config.color_inc2, steps_since_draw),
            ),
            *final(self) == *old(self),
    {
        let ghost hue_before = grid(hue);
        let ghost hue2_before = grid(hue2);
        let x: usize = self.x as usize;
        let y: usize = self.y as usize;
        if reverse == false {
            let sum: u32 = hue[x][y] as u32 + config.color_inc as u32;
            hue[x][y] = (sum % HUE_RANGE as u32) as u16;
        } else {
            let mut hue_temp: i32 = hue[x][y] as i32;
            hue_temp -= config.color_inc as i32;
            let rem: i32 = hue_temp % HUE_RANGE as i32;
            hue[x][y] = if rem < 0 {
                (rem + HUE_RANGE as i32) as u16
            } else {
                rem as u16
            };
        }
        assert(config.color_inc2 * steps_since_draw <= 0xffff_ffff * 0xffff_ffff) by (nonlinear_arith)
            requires
                0 <= config.color_inc2 <= 0xffff_ffff,
                0 <= steps_since_draw <= 0xffff_ffff,
        ;
        let offset: u64 = config.color_inc2 as u64 * steps_since_draw as u64;
        hue2[x][y] = ((HUE2_START as u64 + offset) % HUE2_RANGE as u64) as u32;
        assert(grid(hue) =~~= with_cell(
            hue_before,
            x as int,
            y as int,
            visited_hue(hue_before[x as int][y as int], config.color_inc, reverse),
        ));
        assert(grid(hue2) =~~= with_cell(
            hue2_before,
            x as int,
            y as int,
            visited_hue2(config.color_inc2, steps_since_draw),
        ));
    }

    /// Moves one cell in the ant's direction; a step over an edge of the grid
    /// comes back in on the opposite edge.
    pub fn advance(&mut self, config: &Config)
        requires
            config.wf(),
            old(self).within(*config),
        ensures
            *final(self) == old(self).advanced(*config),
            final(self).within(*config),
    {
        proof {
            lemma_wrap(self.x as int, 1, config.width as int);
            lemma_wrap(self.x as int, -1, config.width as int);
            lemma_wrap(self.x as int, 0, config.width as int);
            lemma_wrap(self.y as int, 1, config.height as int);
            lemma_wrap(self.y as int, -1, config.height as int);
            lemma_wrap(self.y as int, 0, config.height as int);
        }
        if self.direction == 0 {
            self.x += 1;
        } else if self.direction == 1 {
            self.y -= 1;
        } else if self.direction == 2 {
            self.x -= 1;
        } else {
            self.y += 1;
        }
        if self.x < 0 {
            self.x = config.width as i32 - 1;
        }
        if self.y < 0 {
            self.y = config.height as i32 - 1;
        }
        if self.x >= config.width as i32 {
            self.x = 0;
        }
        if self.y >= config.height as i32 {
            self.y = 0;
        }
    }

    /// Puts the ant on a random cell, facing a random direction.
    pub fn randomize(&mut self, config: &Config)
        requires
            config.wf(),
        ensures
            final(self).within(*config),
    {
        let x_draw: u32 = random_u32();
        let y_draw: u32 = random_u32();
        let direction_draw: u8 = random_u8();
        *self = Ant::from_draws(x_draw, y_draw, direction_draw, config);
    }
}

/// An ant on the east edge that moves east lands on the west edge, and the
/// same holds of every edge and the one opposite; an ant that does not
/// cross an edge moves to the neighbouring cell.
pub proof fn lemma_advance_wraps(ant: Ant, config: Config)
    requires
        config.wf(),
        ant.within(config),
    ensures
        ant.advanced(config).within(config),
        ant.advanced(config).direction == ant.direction,
        ant.direction == 0 ==> ant.advanced(config).y == ant.y && ant.advanced(config).x == if ant.x
            == config.width - 1 {
            0
        } else {
            ant.x + 1
        },
        ant.direction == 1 ==> ant.advanced(config).x == ant.x && ant.advanced(config).y == if ant.y == 0 {
            config.height - 1
        } else {
            ant.y - 1
        },
        ant.direction == 2 ==> ant.advanced(config).y == ant.y && ant.advanced(config).x == if ant.x == 0 {
            config.width - 1
        } else {
            ant.x - 1
        },
        ant.direction == 3 ==> ant.advanced(config).x == ant.x && ant.advanced(config).y == if ant.y
            == config.height - 1 {
            0
        } else {
            ant.y + 1
        },
{
    lemma_wrap(ant.x as int, 1, config.width as int);
    lemma_wrap(ant.x as int, -1, config.width as int);
    lemma_wrap(ant.x as int, 0, config.width as int);
    lemma_wrap(ant.y as int, 1, config.height as int);
    lemma_wrap(ant.y as int, -1, config.height as int);
    lemma_wrap(ant.y as int, 0, config.height as int);
}

/// A turn on a cell that is off takes the directions 0, 1, 2, 3 to 1, 2, 3,
/// 0; a turn on a cell that is on takes them to 3, 0, 1, 2. The two undo
/// each other, and neither leaves the four directions nor moves the ant.
pub proof fn lemma_turn_rule(ant: Ant, cell: u32)
    requires
        ant.direction < 4,
        cell != 0,
    ensures
        ant.turned(0).direction == if ant.direction == 3 {
            0
        } else {
            ant.direction + 1
        },
        ant.turned(cell).direction == if ant.direction == 0 {
            3
        } else {
            ant.direction - 1
        },
        ant.turned(0).turned(cell) == ant,
        ant.turned(cell).turned(0) == ant,
        ant.turned(0).x == ant.x && ant.turned(0).y == ant.y,
        ant.turned(cell).x == ant.x && ant.turned(cell).y == ant.y,
        ant.turned(0).direction < 4 && ant.turned(cell).direction < 4,
{
}

} // verus!
