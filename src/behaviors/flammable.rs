use vstd::prelude::*;
use rand::rngs::StdRng;
use crate::behaviors::{Behavior, BehaviorId, FLAMMABLE_ID, IGNITER_ID};
use crate::particle::ParticleState;
use crate::particle_action::{ParticleAction, Species};
use crate::random::{below, CHANCE_ONE};
use crate::snapshot::Snapshot;

verus! {

/// The cell at column `x`, row `y` lies on the grid and carries an igniter.
pub open spec fn igniter_at(grid: &Snapshot, x: int, y: int) -> bool {
    &&& 0 <= x < grid.width
    &&& 0 <= y < grid.height
    &&& grid.flags@[y * grid.width + x] & IGNITER_ID != 0
}

/// Igniters at offsets `(i, j)` from `(cx, cy)` with `-r <= j < k`, the centre left out.
pub open spec fn igniters_in_column(grid: &Snapshot, cx: int, cy: int, r: int, i: int, k: int) -> nat
    decreases k + r,
{
    if k <= -r {
        0
    } else {
        igniters_in_column(grid, cx, cy, r, i, k - 1) + if (i != 0 || k - 1 != 0) && igniter_at(grid, cx + i, cy + k - 1) {
            1nat
        } else {
            0nat
        }
    }
}

/// Igniters at offsets `(i, j)` from `(cx, cy)` with `-r <= i < k` and `-r <= j <= r`, the centre left out.
pub open spec fn igniters_in_square(grid: &Snapshot, cx: int, cy: int, r: int, k: int) -> nat
    decreases k + r,
{
    if k <= -r {
        0
    } else {
        igniters_in_square(grid, cx, cy, r, k - 1) + igniters_in_column(grid, cx, cy, r, k - 1, r + 1)
    }
}

/// The igniters among the cells of the square of radius `r` round `(cx, cy)`, but itself.
pub open spec fn igniters_around(grid: &Snapshot, cx: int, cy: int, r: int) -> nat {
    igniters_in_square(grid, cx, cy, r, r + 1)
}

/// Catches fire from nearby igniters: each one in range raises the chance to ignite, which
/// falls back once none is left; igniting replaces the particle by fire.
pub struct Flammable {
    /// Parts per million per second that each igniter in range adds, shared over the range.
    pub ignition_rate: u32,
    /// The radius of the square watched round the particle.
    pub ignition_radius: i32,
    /// The chance to ignite this tick, in parts per million.
    pub current_ignition_probability: u64,
    /// The cells of the square but the particle's own.
    pub num_cell_in_radius: u64,
}

impl Flammable {
    pub open spec fn wf(&self) -> bool {
        &&& 1 <= self.ignition_radius
        &&& self.num_cell_in_radius == (2 * self.ignition_radius + 1) * (2 * self.ignition_radius + 1) - 1
        &&& self.current_ignition_probability <= CHANCE_ONE
    }

    /// The chance to ignite after a tick of `dt` microseconds with `n` igniters in range.
    pub open spec fn next_probability(&self, n: nat, dt: int) -> int {
        if n > 0 {
            let gain = n * self.ignition_rate * dt / (1_000_000 * self.num_cell_in_radius);
            if self.current_ignition_probability + gain > CHANCE_ONE {
                CHANCE_ONE as int
            } else {
                self.current_ignition_probability + gain
            }
        } else {
            let loss = self.ignition_rate * dt / 1_000_000;
            if self.current_ignition_probability > loss {
                self.current_ignition_probability - loss
            } else {
                0
            }
        }
    }

    /// A non-positive radius is taken as 1.
    pub fn boxed(ignition_rate: u32, ignition_radius: i32) -> (b: Behavior)
        ensures
            b is Flammable,
            b->Flammable_0.wf(),
            b->Flammable_0.ignition_rate == ignition_rate,
            b->Flammable_0.ignition_radius == if ignition_radius < 1 { 1 } else { ignition_radius },
            b->Flammable_0.current_ignition_probability == 0,
    {
        let radius = if ignition_radius < 1 { 1 } else { ignition_radius };
        let side = 2 * (radius as u64) + 1;
        assert(1 <= side * side <= (u32::MAX as int) * (u32::MAX as int)) by (nonlinear_arith)
            requires 3 <= side <= u32::MAX;
        Behavior::Flammable(Flammable {
            ignition_rate,
            ignition_radius: radius,
            current_ignition_probability: 0,
            num_cell_in_radius: side * side - 1,
        })
    }

    pub fn get_id(&self) -> (r: BehaviorId)
        ensures
            r == FLAMMABLE_ID,
    {
        FLAMMABLE_ID
    }

    /// Counts the igniters in range of `state` and updates the chance to ignite.
    pub fn accumulate(&mut self, state: &ParticleState, dt: u32, grid: &Snapshot)
        requires
            old(self).wf(),
            grid.wf(),
            grid.in_bounds(state.position),
        ensures
            final(self).wf(),
            *final(self) == (Flammable {
                current_ignition_probability: old(self).next_probability(
                    igniters_around(grid, state.position.0 as int, state.position.1 as int, old(self).ignition_radius as int),
                    dt as int,
                ) as u64,
                ..*old(self)
            }),
    {
        let r = self.ignition_radius as i64;
        let cx = state.position.0 as i64;
        let cy = state.position.1 as i64;
        let mut count: u64 = 0;
        let mut i: i64 = -r;
        while i <= r
            invariant
                1 <= r <= i32::MAX,
                -r <= i <= r + 1,
                grid.wf(),
                count == igniters_in_square(grid, cx as int, cy as int, r as int, i as int),
                i32::MIN <= cx <= i32::MAX,
                i32::MIN <= cy <= i32::MAX,
                count <= (i + r) * (2 * r + 1),
            decreases r + 1 - i,
        {
            let mut j: i64 = -r;
            let mut column: u64 = 0;
            while j <= r
                invariant
                    1 <= r <= i32::MAX,
                    -r <= i <= r,
                    -r <= j <= r + 1,
                    grid.wf(),
                    column == igniters_in_column(grid, cx as int, cy as int, r as int, i as int, j as int),
                    i32::MIN <= cx <= i32::MAX,
                    i32::MIN <= cy <= i32::MAX,
                    column <= j + r,
                decreases r + 1 - j,
            {
                if (i != 0 || j != 0) && igniter_cell(grid, cx + i, cy + j) {
                    column = column + 1;
                }
                j = j + 1;
            }
            assert(count + column <= (i + 1 + r) * (2 * r + 1)) by (nonlinear_arith)
                requires count <= (i + r) * (2 * r + 1), column <= 2 * r + 1;
            assert((i + 1 + r) * (2 * r + 1) <= (2 * r + 1) * (2 * r + 1)) by (nonlinear_arith)
                requires i + 1 <= r + 1, r >= 1;
            assert((2 * r + 1) * (2 * r + 1) <= ((u32::MAX as int) * (u32::MAX as int))) by (nonlinear_arith)
                requires 1 <= r <= i32::MAX;
            count = count + column;
            i = i + 1;
        }
        assert(count <= ((u32::MAX as int) * (u32::MAX as int))) by (nonlinear_arith)
            requires count <= (r + 1 + r) * (2 * r + 1), 1 <= r <= i32::MAX;
        let rate = self.ignition_rate as u128;
        
        assert(self.num_cell_in_radius >= 8) by (nonlinear_arith)
            requires self.num_cell_in_radius == (2 * r + 1) * (2 * r + 1) - 1, r >= 1;
        assert(self.num_cell_in_radius <= ((u32::MAX as int) * (u32::MAX as int))) by (nonlinear_arith)
            requires self.num_cell_in_radius == (2 * r + 1) * (2 * r + 1) - 1, r <= i32::MAX, r >= 1;
        if count > 0 {
            assert(count * rate <= ((u32::MAX as int) * (u32::MAX as int)) * (u32::MAX as int)) by (nonlinear_arith)
                requires count <= ((u32::MAX as int) * (u32::MAX as int)), 0 <= rate <= u32::MAX;
            assert(count * rate * dt <= ((u32::MAX as int) * (u32::MAX as int)) * (u32::MAX as int) * (u32::MAX as int)) by (nonlinear_arith)
                requires 0 <= count * rate <= ((u32::MAX as int) * (u32::MAX as int)) * (u32::MAX as int), 0 <= dt <= u32::MAX;
            let gain = (count as u128) * rate * (dt as u128) / (1_000_000 * self.num_cell_in_radius as u128);
            if (self.current_ignition_probability as u128) + gain > CHANCE_ONE as u128 {
                self.current_ignition_probability = CHANCE_ONE as u64;
            } else {
                self.current_ignition_probability = self.current_ignition_probability + gain as u64;
            }
        } else {
            assert((self.ignition_rate as int) * (dt as int) <= (u32::MAX as int) * (u32::MAX as int)) by (nonlinear_arith)
                requires self.ignition_rate <= u32::MAX, dt <= u32::MAX;
            let loss = (self.ignition_rate as u64) * (dt as u64) / 1_000_000;
            if self.current_ignition_probability > loss {
                self.current_ignition_probability = self.current_ignition_probability - loss;
            } else {
                self.current_ignition_probability = 0;
            }
        }
    }

    /// The behavior after a tick of `dt` for the particle at `state` on `grid`.
    pub open spec fn heated(&self, state: &ParticleState, grid: &Snapshot, dt: int) -> Flammable {
        Flammable {
            current_ignition_probability: self.next_probability(
                igniters_around(grid, state.position.0 as int, state.position.1 as int, self.ignition_radius as int),
                dt,
            ) as u64,
            ..*self
        }
    }

    /// One tick with the draw given: updates the chance to ignite, then, when `draw` falls
    /// below it, asks for the particle to be killed and fire to be spawned in its place.
    pub fn step(&mut self, state: &ParticleState, dt: u32, grid: &Snapshot, draw: u32) -> (r: Vec<ParticleAction>)
        requires
            old(self).wf(),
            grid.wf(),
            grid.in_bounds(state.position),
        ensures
            final(self).wf(),
            *final(self) == old(self).heated(state, grid, dt as int),
            r@ == burn_actions(state, draw as int, final(self).current_ignition_probability as int),
    {
        self.accumulate(state, dt, grid);
        if (draw as u64) < self.current_ignition_probability {
            let mut actions = Vec::new();
            actions.push(ParticleAction::KillParticle { position: state.position });
            actions.push(ParticleAction::SpawnParticle { species: Species::Fire, position: state.position });
            assert(actions@ =~= ignition_actions(state));
            actions
        } else {
            Vec::new()
        }
    }

    /// One tick, with the draw made at random.
    pub fn update(&mut self, state: &ParticleState, dt: u32, grid: &Snapshot, rng: &mut StdRng) -> (r: Vec<ParticleAction>)
        requires
            old(self).wf(),
            grid.wf(),
            grid.in_bounds(state.position),
        ensures
            final(self).wf(),
            *final(self) == old(self).heated(state, grid, dt as int),
            burns(state, final(self).current_ignition_probability as int, r@),
    {
        let draw = below(rng, CHANCE_ONE);
        self.step(state, dt, grid, draw)
    }
}

/// `r` is what a tick asks for with the chance `chance` to ignite, for some draw below `CHANCE_ONE`.
pub open spec fn burns(state: &ParticleState, chance: int, r: Seq<ParticleAction>) -> bool {
    exists|draw: int| 0 <= draw < CHANCE_ONE && r == #[trigger] burn_actions(state, draw, chance)
}

/// What a tick asks for when `draw` is set against the chance `chance` to ignite.
pub open spec fn burn_actions(state: &ParticleState, draw: int, chance: int) -> Seq<ParticleAction> {
    if draw < chance { ignition_actions(state) } else { Seq::empty() }
}

/// The particle at `state` burns: it is killed and fire takes its cell.
pub open spec fn ignition_actions(state: &ParticleState) -> Seq<ParticleAction> {
    seq![
        ParticleAction::KillParticle { position: state.position },
        ParticleAction::SpawnParticle { species: Species::Fire, position: state.position },
    ]
}

fn igniter_cell(grid: &Snapshot, x: i64, y: i64) -> (r: bool)
    requires
        grid.wf(),
    ensures
        r == igniter_at(grid, x as int, y as int),
{
    if 0 <= x && x < grid.width as i64 && 0 <= y && y < grid.height as i64 {
        grid.flags((x as i32, y as i32)) & IGNITER_ID != 0
    } else {
        false
    }
}

} // verus!
