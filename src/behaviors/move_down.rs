use vstd::prelude::*;
use rand::rngs::StdRng;
use crate::behaviors::{cell_has_behavior, has_behavior, AIR_LIKE_ID, MOVE_DOWN_ID, BehaviorId, Behavior};
use crate::grid::Position;
use crate::particle::{ParticleState, EMPTY_ID};
use crate::particle_action::{single, ParticleAction};
use crate::random::coin;
use crate::snapshot::Snapshot;

verus! {

/// Sub-cell units in one cell.
pub const SUBCELLS: i64 = 1_000;

/// Microseconds in one second: times are in microseconds.
pub const MICROS: i64 = 1_000_000;

/// The largest distance from the top row, in sub-cells, that a falling particle keeps.
pub const SUB_ROW_LIMIT: i64 = 4_000_000_000_000_000;

/// `rate` (per second) over `dt` microseconds, rounded toward zero.
pub open spec fn scale(rate: int, dt: int) -> int {
    if rate >= 0 {
        rate * dt / (MICROS as int)
    } else {
        -((-rate) * dt / (MICROS as int))
    }
}

/// The nearest cell to a sub-cell coordinate, halves away from zero.
pub open spec fn round_cells(s: int) -> int {
    if s >= 0 {
        (s + SUBCELLS as int / 2) / (SUBCELLS as int)
    } else {
        -((-s + SUBCELLS as int / 2) / (SUBCELLS as int))
    }
}

pub open spec fn clamp(v: int, lo: int, hi: int) -> int {
    if v < lo {
        lo
    } else if v > hi {
        hi
    } else {
        v
    }
}

/// A mover may enter `p` when it is empty, or air-like while the mover is not air-like itself.
pub open spec fn can_enter(grid: &Snapshot, p: Position, mover_air_like: bool) -> bool {
    &&& grid.in_bounds(p)
    &&& (grid.id_at(p) == EMPTY_ID || (!mover_air_like && grid.flags_at(p) & AIR_LIKE_ID != 0))
}

/// Where on `row` a mover from column `x` lands: straight below first, then the side
/// that `right_first` picks, then the other side.
pub open spec fn landing_offset(grid: &Snapshot, x: i32, row: i32, mover_air_like: bool, right_first: bool) -> Option<i32> {
    let first: int = if right_first { 1 } else { -1 };
    if can_enter(grid, (x, row), mover_air_like) {
        Some(0i32)
    } else if can_enter(grid, ((x + first) as i32, row), mover_air_like) {
        Some(first as i32)
    } else if can_enter(grid, ((x - first) as i32, row), mover_air_like) {
        Some((-first) as i32)
    } else {
        None
    }
}

/// Gravity along the rows: a velocity that accelerates up to a bound, and a sub-cell row
/// position that moves the particle whenever it rounds to another row.
pub struct MoveDown {
    /// Sub-cells per second per second; negative values rise.
    pub acceleration: i64,
    /// Sub-cells per second, the bound on the speed.
    pub max_velocity: i64,
    /// Sub-cells per second.
    pub velocity: i64,
    /// The vertical position in sub-cells.
    pub sub_row: i64,
}

impl MoveDown {
    pub open spec fn wf(&self) -> bool {
        &&& 0 <= self.max_velocity <= u32::MAX
        &&& -self.max_velocity <= self.velocity <= self.max_velocity
        &&& i32::MIN <= self.acceleration <= i32::MAX
        &&& -SUB_ROW_LIMIT <= self.sub_row <= SUB_ROW_LIMIT
    }

    /// The sub-cell row the tick starts from: the kept one, unless the particle was moved to
    /// another row since, in which case the centre of its present row.
    pub open spec fn start_sub_row(&self, row: int) -> int {
        if round_cells(self.sub_row as int) == row {
            self.sub_row as int
        } else {
            row * (SUBCELLS as int)
        }
    }

    pub open spec fn next_velocity(&self, dt: int) -> int {
        clamp(self.velocity + scale(self.acceleration as int, dt), -self.max_velocity, self.max_velocity as int)
    }

    pub open spec fn next_sub_row(&self, row: int, dt: int) -> int {
        self.start_sub_row(row) + scale(self.next_velocity(dt), dt)
    }

    /// The cell this tick moves the particle at `state` to, if any.
    pub open spec fn fall_target(&self, state: ParticleState, grid: &Snapshot, dt: int, right_first: bool) -> Option<Position> {
        let row = state.position.1 as int;
        let t = round_cells(self.next_sub_row(row, dt));
        if t == row || t < 0 || t >= grid.height {
            None
        } else {
            let air = cell_has_behavior(state.position, grid, AIR_LIKE_ID);
            match landing_offset(grid, state.position.0, t as i32, air, right_first) {
                Some(dx) => Some(((state.position.0 + dx) as i32, t as i32)),
                None => None,
            }
        }
    }

    /// The motion stays: the row did not change, or the particle moved.
    pub open spec fn keeps_motion(&self, state: ParticleState, grid: &Snapshot, dt: int, right_first: bool) -> bool {
        round_cells(self.next_sub_row(state.position.1 as int, dt)) == state.position.1
            || self.fall_target(state, grid, dt, right_first) is Some
    }

    pub fn boxed(position: Position, max_velocity: u32, acceleration: i32) -> (b: Behavior)
        ensures
            b == Behavior::MoveDown(MoveDown {
                acceleration: acceleration as i64,
                max_velocity: max_velocity as i64,
                velocity: 0,
                sub_row: (position.1 * SUBCELLS) as i64,
            }),
            b->MoveDown_0.wf(),
    {
        Behavior::MoveDown(MoveDown {
            acceleration: acceleration as i64,
            max_velocity: max_velocity as i64,
            velocity: 0,
            sub_row: position.1 as i64 * SUBCELLS,
        })
    }

    pub fn get_id(&self) -> (r: BehaviorId)
        ensures
            r == MOVE_DOWN_ID,
    {
        MOVE_DOWN_ID
    }

    /// The effect of one tick for some choice of the side to try first.
    pub open spec fn falls(&self, state: ParticleState, grid: &Snapshot, dt: int,
        after: &MoveDown, state2: ParticleState, grid2: &Snapshot, r: Seq<ParticleAction>) -> bool {
        exists|right_first: bool| #[trigger] self.fall_outcome(state, grid, dt, right_first, after, state2, grid2, r)
    }

    /// The effect of one tick with `right_first` choosing the side: `after`, `state2`, `grid2`
    /// and `r` are the behavior, the particle state, the grid and the actions that follow.
    pub open spec fn fall_outcome(&self, state: ParticleState, grid: &Snapshot, dt: int, right_first: bool,
        after: &MoveDown, state2: ParticleState, grid2: &Snapshot, r: Seq<ParticleAction>) -> bool {
        let row = state.position.1 as int;
        &&& after.acceleration == self.acceleration
        &&& after.max_velocity == self.max_velocity
        &&& if self.keeps_motion(state, grid, dt, right_first) {
            after.velocity == self.next_velocity(dt) && after.sub_row == self.next_sub_row(row, dt)
        } else {
            after.velocity == 0 && after.sub_row == row * (SUBCELLS as int)
        }
        &&& match self.fall_target(state, grid, dt, right_first) {
            Some(t) => {
                &&& grid2.is_swap_of(grid, state.position, t)
                &&& state2 == (ParticleState { position: t, ..state })
                &&& r == seq![ParticleAction::SetPosition { position: t }]
            },
            None => {
                &&& *grid2 == *grid
                &&& state2 == state
                &&& r == Seq::<ParticleAction>::empty()
            },
        }
    }

    /// One tick with the side to try first given: integrates the motion and, on reaching
    /// another row, moves the particle to the landing cell, swapping the two cells of `grid`.
    /// Off the grid or with nowhere to land, the motion stops at the present row.
    pub fn step(&mut self, state: &mut ParticleState, dt: u32, grid: &mut Snapshot, right_first: bool) -> (r: Vec<ParticleAction>)
        requires
            old(self).wf(),
            old(grid).wf(),
            old(grid).in_bounds(old(state).position),
        ensures
            final(self).wf(),
            old(self).fall_outcome(*old(state), old(grid), dt as int, right_first, final(self), *final(state), final(grid), r@),
            final(grid).wf(),
            final(grid).in_bounds(final(state).position),
    {
        let row = state.position.1;
        let x = state.position.0;
        let start = if rounded(self.sub_row) == row as i64 {
            self.sub_row
        } else {
            row as i64 * SUBCELLS
        };
        let mut velocity = self.velocity + scaled(self.acceleration, dt);
        if velocity > self.max_velocity {
            velocity = self.max_velocity;
        } else if velocity < -self.max_velocity {
            velocity = -self.max_velocity;
        }
        let next = start + scaled(velocity, dt);
        proof {
            lemma_round_bounds(next as int);
        }
        let target = rounded(next);
        if target == row as i64 {
            self.velocity = velocity;
            self.sub_row = next;
            return Vec::new();
        }
        if target < 0 || target >= grid.height as i64 {
            self.stop_motion(row);
            return Vec::new();
        }
        let t = target as i32;
        let air = has_behavior(state.position, grid, AIR_LIKE_ID);
        match Self::find_empty_cell(x, t, grid, air, right_first) {
            Some(dx) => {
                let destination: Position = (x + dx, t);
                grid.swap_cells(state.position, destination);
                state.position = destination;
                self.velocity = velocity;
                self.sub_row = next;
                single(ParticleAction::SetPosition { position: destination })
            },
            None => {
                self.stop_motion(row);
                Vec::new()
            },
        }
    }

    /// One tick, with the first side to try drawn at random.
    pub fn update(&mut self, state: &mut ParticleState, dt: u32, grid: &mut Snapshot, rng: &mut StdRng) -> (r: Vec<ParticleAction>)
        requires
            old(self).wf(),
            old(grid).wf(),
            old(grid).in_bounds(old(state).position),
        ensures
            final(self).wf(),
            old(self).falls(*old(state), old(grid), dt as int, final(self), *final(state), final(grid), r@),
            final(grid).wf(),
            final(grid).in_bounds(final(state).position),
    {
        let right_first = coin(rng);
        self.step(state, dt, grid, right_first)
    }

    fn stop_motion(&mut self, row: i32)
        requires
            old(self).wf(),
        ensures
            *final(self) == (MoveDown { velocity: 0, sub_row: (row * SUBCELLS) as i64, ..*old(self) }),
            final(self).wf(),
    {
        self.velocity = 0;
        self.sub_row = row as i64 * SUBCELLS;
    }

    /// The column offset of the landing cell on `row` for a mover from column `x`.
    pub fn find_empty_cell(x: i32, row: i32, grid: &Snapshot, mover_air_like: bool, right_first: bool) -> (r: Option<i32>)
        requires
            grid.wf(),
            0 <= x < grid.width,
        ensures
            r == landing_offset(grid, x, row, mover_air_like, right_first),
    {
        let first: i32 = if right_first { 1 } else { -1 };
        if Self::enterable(grid, (x, row), mover_air_like) {
            Some(0)
        } else if Self::enterable(grid, (x + first, row), mover_air_like) {
            Some(first)
        } else if Self::enterable(grid, (x - first, row), mover_air_like) {
            Some(-first)
        } else {
            None
        }
    }

    fn enterable(grid: &Snapshot, p: Position, mover_air_like: bool) -> (r: bool)
        requires
            grid.wf(),
        ensures
            r == can_enter(grid, p, mover_air_like),
    {
        if !grid.contains(p) {
            return false;
        }
        let id = grid.id(p);
        id == EMPTY_ID || (!mover_air_like && grid.flags(p) & AIR_LIKE_ID != 0)
    }
}

proof fn lemma_round_bounds(s: int)
    requires
        -2 * SUB_ROW_LIMIT <= s <= 2 * SUB_ROW_LIMIT,
    ensures
        -2 * (SUB_ROW_LIMIT as int) / (SUBCELLS as int) - 1 <= round_cells(s) <= 2 * (SUB_ROW_LIMIT as int) / (SUBCELLS as int) + 1,
        0 <= round_cells(s) <= i32::MAX ==> -SUB_ROW_LIMIT <= s <= SUB_ROW_LIMIT,
{
    if s >= 0 {
        assert((s + SUBCELLS as int / 2) / (SUBCELLS as int) <= 2 * (SUB_ROW_LIMIT as int) / (SUBCELLS as int) + 1) by (nonlinear_arith)
            requires 0 <= s <= 2 * SUB_ROW_LIMIT;
        if (s + SUBCELLS as int / 2) / (SUBCELLS as int) <= i32::MAX {
            assert(s <= SUB_ROW_LIMIT) by (nonlinear_arith)
                requires (s + SUBCELLS as int / 2) / (SUBCELLS as int) <= i32::MAX, s >= 0;
        }
    } else {
        assert((-s + SUBCELLS as int / 2) / (SUBCELLS as int) <= 2 * (SUB_ROW_LIMIT as int) / (SUBCELLS as int) + 1) by (nonlinear_arith)
            requires 0 < -s <= 2 * SUB_ROW_LIMIT;
        if -((-s + SUBCELLS as int / 2) / (SUBCELLS as int)) >= 0 {
            assert(-s < SUBCELLS) by (nonlinear_arith)
                requires (-s + SUBCELLS as int / 2) / (SUBCELLS as int) <= 0, -s > 0;
        }
    }
}

fn rounded(s: i64) -> (r: i64)
    requires
        -2 * SUB_ROW_LIMIT <= s <= 2 * SUB_ROW_LIMIT,
    ensures
        r == round_cells(s as int),
{
    if s >= 0 {
        (s + SUBCELLS / 2) / SUBCELLS
    } else {
        -((-s + SUBCELLS / 2) / SUBCELLS)
    }
}

pub open spec fn max_scaled() -> int {
    (u32::MAX as int) * (u32::MAX as int) / (MICROS as int)
}

fn scaled(rate: i64, dt: u32) -> (r: i64)
    requires
        -(u32::MAX as int) <= rate <= u32::MAX,
    ensures
        r == scale(rate as int, dt as int),
        -max_scaled() <= r <= max_scaled(),
{
    if rate >= 0 {
        assert(0 <= rate * dt <= (u32::MAX as int) * (u32::MAX as int)) by (nonlinear_arith)
            requires 0 <= rate <= u32::MAX, 0 <= dt <= u32::MAX;
        let p: i128 = rate as i128 * dt as i128;
        assert((p as int) / (MICROS as int) <= max_scaled()) by (nonlinear_arith)
            requires 0 <= p <= (u32::MAX as int) * (u32::MAX as int);
        (p / MICROS as i128) as i64
    } else {
        assert(0 <= (-rate) * dt <= (u32::MAX as int) * (u32::MAX as int)) by (nonlinear_arith)
            requires 0 < -rate <= u32::MAX, 0 <= dt <= u32::MAX;
        let p: i128 = (-rate) as i128 * dt as i128;
        assert((p as int) / (MICROS as int) <= max_scaled()) by (nonlinear_arith)
            requires 0 <= p <= (u32::MAX as int) * (u32::MAX as int);
        -((p / MICROS as i128) as i64)
    }
}

} // verus!
