use vstd::prelude::*;
use rand::rngs::StdRng;
use crate::behaviors::{has_behavior, Behavior, BehaviorId, AIR_LIKE_ID, SIDEWAY_MOTION_FALLBACK};
use crate::grid::Position;
use crate::particle::{ParticleState, EMPTY_ID};
use crate::particle_action::{single, ParticleAction};
use crate::random::coin;
use crate::snapshot::Snapshot;

verus! {

/// `p` is on the grid and holds nothing, or something air-like.
pub open spec fn open_cell(grid: &Snapshot, p: Position) -> bool {
    grid.in_bounds(p) && (grid.id_at(p) == EMPTY_ID || grid.flags_at(p) & AIR_LIKE_ID != 0)
}

/// None of the three cells below `p` (straight, left, right) is open; on the bottom row, true.
pub open spec fn downward_blocked(grid: &Snapshot, p: Position) -> bool {
    let below = (p.1 + 1) as i32;
    p.1 + 1 >= grid.height || (!open_cell(grid, (p.0, below)) && !open_cell(grid, ((p.0 - 1) as i32, below))
        && !open_cell(grid, ((p.0 + 1) as i32, below)))
}

/// The open side neighbour of `p`, the side `right_first` picks tried first.
pub open spec fn sideways_target(grid: &Snapshot, p: Position, right_first: bool) -> Option<Position> {
    let first: int = if right_first { 1 } else { -1 };
    if open_cell(grid, ((p.0 + first) as i32, p.1)) {
        Some(((p.0 + first) as i32, p.1))
    } else if open_cell(grid, ((p.0 - first) as i32, p.1)) {
        Some(((p.0 - first) as i32, p.1))
    } else {
        None
    }
}

/// The effect of a sideways step from `p`.
pub open spec fn sideways_move(grid: &Snapshot, p: Position, right_first: bool) -> Option<Position> {
    if downward_blocked(grid, p) {
        sideways_target(grid, p, right_first)
    } else {
        None
    }
}

/// When nothing below is open, the particle slides one cell sideways, like a liquid.
pub struct SidewaysMotionFallback {
    pub last_position: Position,
}

impl SidewaysMotionFallback {
    pub fn boxed(position: &Position) -> (b: Behavior)
        ensures
            b == Behavior::SidewaysMotionFallback(SidewaysMotionFallback { last_position: *position }),
    {
        Behavior::SidewaysMotionFallback(SidewaysMotionFallback { last_position: *position })
    }

    pub fn get_id(&self) -> (r: BehaviorId)
        ensures
            r == SIDEWAY_MOTION_FALLBACK,
    {
        SIDEWAY_MOTION_FALLBACK
    }

    /// Whether `position` is on the grid and empty or air-like.
    pub fn is_empty_or_airlike(position: Position, grid: &Snapshot) -> (r: bool)
        requires
            grid.wf(),
        ensures
            r == open_cell(grid, position),
    {
        if !grid.contains(position) {
            return false;
        }
        grid.id(position) == EMPTY_ID || has_behavior(position, grid, AIR_LIKE_ID)
    }

    pub fn are_all_downward_positions_blocked(state: &ParticleState, grid: &Snapshot) -> (r: bool)
        requires
            grid.wf(),
            grid.in_bounds(state.position),
        ensures
            r == downward_blocked(grid, state.position),
    {
        let x = state.position.0;
        let y = state.position.1;
        if y + 1 >= grid.height {
            return true;
        }
        !Self::is_empty_or_airlike((x, y + 1), grid) && !Self::is_empty_or_airlike((x - 1, y + 1), grid)
            && !Self::is_empty_or_airlike((x + 1, y + 1), grid)
    }

    pub fn get_empty_or_airlike_sideways_position(state: &ParticleState, grid: &Snapshot, right_first: bool) -> (r: Option<Position>)
        requires
            grid.wf(),
            grid.in_bounds(state.position),
        ensures
            r == sideways_target(grid, state.position, right_first),
    {
        let first: i32 = if right_first { 1 } else { -1 };
        let x = state.position.0;
        let y = state.position.1;
        if Self::is_empty_or_airlike((x + first, y), grid) {
            Some((x + first, y))
        } else if Self::is_empty_or_airlike((x - first, y), grid) {
            Some((x - first, y))
        } else {
            None
        }
    }

    /// One tick with the side to try first given: when all below is blocked, moves the
    /// particle into an open side cell, swapping the two cells of `grid`.
    pub fn step(&mut self, state: &mut ParticleState, grid: &mut Snapshot, right_first: bool) -> (r: Vec<ParticleAction>)
        requires
            old(grid).wf(),
            old(grid).in_bounds(old(state).position),
        ensures
            final(grid).wf(),
            final(grid).in_bounds(final(state).position),
            final(self).last_position == final(state).position,
            match sideways_move(old(grid), old(state).position, right_first) {
                Some(t) => {
                    &&& final(grid).is_swap_of(old(grid), old(state).position, t)
                    &&& *final(state) == (ParticleState { position: t, ..*old(state) })
                    &&& r@ == seq![ParticleAction::SetPosition { position: t }]
                },
                None => {
                    &&& *final(grid) == *old(grid)
                    &&& *final(state) == *old(state)
                    &&& r@ == Seq::<ParticleAction>::empty()
                },
            },
    {
        let mut actions = Vec::new();
        if Self::are_all_downward_positions_blocked(state, grid) {
            match Self::get_empty_or_airlike_sideways_position(state, grid, right_first) {
                Some(new_position) => {
                    grid.swap_cells(state.position, new_position);
                    state.position = new_position;
                    actions = single(ParticleAction::SetPosition { position: new_position });
                },
                None => {},
            }
        }
        self.last_position = state.position;
        actions
    }

    /// One tick, with the first side to try drawn at random.
    pub fn update(&mut self, state: &mut ParticleState, grid: &mut Snapshot, rng: &mut StdRng) -> (r: Vec<ParticleAction>)
        requires
            old(grid).wf(),
            old(grid).in_bounds(old(state).position),
        ensures
            final(grid).wf(),
            final(grid).in_bounds(final(state).position),
            final(self).last_position == final(state).position,
            exists|right_first: bool| match #[trigger] sideways_move(old(grid), old(state).position, right_first) {
                Some(t) => {
                    &&& final(grid).is_swap_of(old(grid), old(state).position, t)
                    &&& *final(state) == (ParticleState { position: t, ..*old(state) })
                    &&& r@ == seq![ParticleAction::SetPosition { position: t }]
                },
                None => {
                    &&& *final(grid) == *old(grid)
                    &&& *final(state) == *old(state)
                    &&& r@ == Seq::<ParticleAction>::empty()
                },
            },
    {
        let right_first = coin(rng);
        self.step(state, grid, right_first)
    }
}

} // verus!
