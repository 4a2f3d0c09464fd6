use vstd::prelude::*;
use rand::rngs::StdRng;
use crate::behaviors::{Behavior, BehaviorId, CURRENT_MOTION_ID};
use crate::grid::Position;
use crate::particle::ParticleState;
use crate::particle_action::{single, ParticleAction};
use crate::random::{below, coin, Chance, CHANCE_ONE};
use crate::snapshot::Snapshot;

verus! {

/// The neighbour on the `left` or right that a particle at `p` may trade places with: one on
/// the grid holding the same particle id and the same flags.
pub open spec fn current_target(grid: &Snapshot, p: Position, left: bool) -> Option<Position> {
    let nx: int = if left { p.0 - 1 } else { p.0 + 1 };
    let n = (nx as i32, p.1);
    if 0 <= nx < grid.width && grid.id_at(n) == grid.id_at(p) && grid.flags_at(n) == grid.flags_at(p) {
        Some(n)
    } else {
        None
    }
}

/// A sideways current: now and then a particle trades places with a like neighbour.
pub struct CurrentMotion {
    /// The chance per second, in parts per million, to try a trade.
    pub swap_probability_per_sec: Chance,
}

impl CurrentMotion {
    pub fn boxed(swap_probability_per_sec: Chance) -> (b: Behavior)
        ensures
            b == Behavior::CurrentMotion(CurrentMotion { swap_probability_per_sec }),
    {
        Behavior::CurrentMotion(CurrentMotion { swap_probability_per_sec })
    }

    pub fn get_id(&self) -> (r: BehaviorId)
        ensures
            r == CURRENT_MOTION_ID,
    {
        CURRENT_MOTION_ID
    }

    /// The chance, in parts per million, of trying a trade in a tick of `dt` microseconds.
    pub open spec fn swap_chance(&self, dt: int) -> int {
        self.swap_probability_per_sec * dt / 1_000_000
    }

    /// `r` is what a tick asks for, for some side and some draw below `CHANCE_ONE`.
    pub open spec fn drifts(&self, state: &ParticleState, grid: &Snapshot, dt: int, r: Seq<ParticleAction>) -> bool {
        exists|left: bool, draw: int| 0 <= draw < CHANCE_ONE
            && r == #[trigger] current_actions(grid, state.position, left, draw, self.swap_chance(dt))
    }

    /// One tick with the side and the draw given: when `draw` falls below the chance of the
    /// tick, asks to move to the like neighbour on that side, if there is one.
    pub fn step(&self, state: &ParticleState, dt: u32, grid: &Snapshot, left: bool, draw: u32) -> (r: Vec<ParticleAction>)
        requires
            grid.wf(),
            grid.in_bounds(state.position),
        ensures
            r@ == current_actions(grid, state.position, left, draw as int, self.swap_chance(dt as int)),
    {
        assert((self.swap_probability_per_sec as int) * (dt as int) <= (u32::MAX as int) * (u32::MAX as int)) by (nonlinear_arith)
            requires self.swap_probability_per_sec <= u32::MAX, dt <= u32::MAX;
        let p = (self.swap_probability_per_sec as u64) * (dt as u64) / 1_000_000;
        if (draw as u64) >= p {
            return Vec::new();
        }
        let x = state.position.0;
        let nx: i64 = if left { x as i64 - 1 } else { x as i64 + 1 };
        if 0 <= nx && nx < grid.width as i64 {
            let n: Position = (nx as i32, state.position.1);
            if grid.id(n) == grid.id(state.position) && grid.flags(n) == grid.flags(state.position) {
                return single(ParticleAction::SetPosition { position: n });
            }
        }
        Vec::new()
    }

    /// One tick, with the side and the draw made at random.
    pub fn update(&self, state: &ParticleState, dt: u32, grid: &Snapshot, rng: &mut StdRng) -> (r: Vec<ParticleAction>)
        requires
            grid.wf(),
            grid.in_bounds(state.position),
        ensures
            self.drifts(state, grid, dt as int, r@),
            self.swap_chance(dt as int) >= CHANCE_ONE ==> exists|left: bool| r@ == #[trigger] current_actions(grid, state.position, left, 0, 1),
            self.swap_chance(dt as int) == 0 ==> r@ == Seq::<ParticleAction>::empty(),
    {
        let left = coin(rng);
        let draw = below(rng, CHANCE_ONE);
        let r = self.step(state, dt, grid, left, draw);
        proof {
            assert(r@ == current_actions(grid, state.position, left, draw as int, self.swap_chance(dt as int)));
            if self.swap_chance(dt as int) >= CHANCE_ONE {
                assert(r@ == current_actions(grid, state.position, left, 0, 1));
            }
        }
        r
    }
}

/// What a tick asks for when `draw` is set against the chance `chance`: a move to the like
/// neighbour on the `left` or right side if the draw falls below the chance, else nothing.
pub open spec fn current_actions(grid: &Snapshot, p: Position, left: bool, draw: int, chance: int) -> Seq<ParticleAction> {
    if draw < chance {
        match current_target(grid, p, left) {
            Some(n) => seq![ParticleAction::SetPosition { position: n }],
            None => Seq::empty(),
        }
    } else {
        Seq::empty()
    }
}

} // verus!
