//! Behaviors: the per-tick rules that particles are made of.
use vstd::prelude::*;
use rand::rngs::StdRng;
use crate::grid::Position;
use crate::particle::ParticleState;
use crate::particle_action::ParticleAction;
use crate::random::CHANCE_ONE;
use crate::snapshot::Snapshot;

pub mod air_like;
pub mod animated_color;
pub mod current_motion;
pub mod die_when_crushed;
pub mod flammable;
pub mod igniter;
pub mod limited_life;
pub mod move_down;
pub mod sideways_motion_fallback;

pub use air_like::AirLike;
pub use animated_color::AnimatedColor;
pub use current_motion::CurrentMotion;
pub use die_when_crushed::DieWhenCrushed;
pub use flammable::Flammable;
pub use igniter::Igniter;
pub use limited_life::LimitedLife;
pub use move_down::MoveDown;
pub use sideways_motion_fallback::SidewaysMotionFallback;

use flammable::burns;
use sideways_motion_fallback::sideways_move;

verus! {

/// One bit per behavior kind; a cell's flags are the union of its particle's behaviors.
pub type BehaviorId = u16;

pub const MOVE_DOWN_ID: BehaviorId = 2;
pub const AIR_LIKE_ID: BehaviorId = 4;
pub const LIMITED_LIFE_ID: BehaviorId = 8;
pub const ANIMATED_COLOR_ID: BehaviorId = 16;
pub const FLAMMABLE_ID: BehaviorId = 32;
pub const DIE_WHEN_CRUSHED_ID: BehaviorId = 64;
pub const IGNITER_ID: BehaviorId = 128;
pub const SIDEWAY_MOTION_FALLBACK: BehaviorId = 256;
pub const CURRENT_MOTION_ID: BehaviorId = 512;

/// The cell `p` lies on the grid and its flags share a bit with `behavior_id`.
pub open spec fn cell_has_behavior(p: Position, grid: &Snapshot, behavior_id: BehaviorId) -> bool {
    grid.in_bounds(p) && grid.flags_at(p) & behavior_id != 0
}

/// Whether the cell at `position` carries `behavior_id`; a cell off the grid carries none.
pub fn has_behavior(position: Position, behaviors_grid: &Snapshot, behavior_id: BehaviorId) -> (r: bool)
    requires
        behaviors_grid.wf(),
    ensures
        r == cell_has_behavior(position, behaviors_grid, behavior_id),
{
    if behaviors_grid.contains(position) {
        behaviors_grid.flags(position) & behavior_id != 0
    } else {
        false
    }
}

/// One behavior of a particle.
pub enum Behavior {
    MoveDown(MoveDown),
    AirLike(AirLike),
    LimitedLife(LimitedLife),
    AnimatedColor(AnimatedColor),
    Flammable(Flammable),
    DieWhenCrushed(DieWhenCrushed),
    Igniter(Igniter),
    SidewaysMotionFallback(SidewaysMotionFallback),
    CurrentMotion(CurrentMotion),
}

impl Behavior {
    pub open spec fn wf(&self) -> bool {
        match self {
            Behavior::MoveDown(m) => m.wf(),
            Behavior::LimitedLife(l) => l.wf(),
            Behavior::Flammable(f) => f.wf(),
            _ => true,
        }
    }

    pub open spec fn spec_id(&self) -> BehaviorId {
        match self {
            Behavior::MoveDown(_) => MOVE_DOWN_ID,
            Behavior::AirLike(_) => AIR_LIKE_ID,
            Behavior::LimitedLife(_) => LIMITED_LIFE_ID,
            Behavior::AnimatedColor(_) => ANIMATED_COLOR_ID,
            Behavior::Flammable(_) => FLAMMABLE_ID,
            Behavior::DieWhenCrushed(_) => DIE_WHEN_CRUSHED_ID,
            Behavior::Igniter(_) => IGNITER_ID,
            Behavior::SidewaysMotionFallback(_) => SIDEWAY_MOTION_FALLBACK,
            Behavior::CurrentMotion(_) => CURRENT_MOTION_ID,
        }
    }

    /// The behavior never asks for a particle to be killed or spawned.
    pub open spec fn conserves_matter(&self) -> bool {
        !(self is LimitedLife || self is Flammable || self is DieWhenCrushed)
    }

    /// `after`, `state2`, `grid2` and `r` are a possible outcome of one tick of this behavior
    /// for the particle at `state` on `grid`: what each kind's own update promises.
    pub open spec fn acts_as(&self, after: &Behavior, state: ParticleState, grid: &Snapshot, dt: int,
        state2: ParticleState, grid2: &Snapshot, r: Seq<ParticleAction>) -> bool {
        match *self {
            Behavior::MoveDown(a) => after is MoveDown && a.falls(state, grid, dt, &after->MoveDown_0, state2, grid2, r),
            Behavior::SidewaysMotionFallback(_) => {
                &&& after is SidewaysMotionFallback
                &&& after->SidewaysMotionFallback_0.last_position == state2.position
                &&& exists|right_first: bool| match #[trigger] sideways_move(grid, state.position, right_first) {
                    Some(t) => {
                        &&& grid2.is_swap_of(grid, state.position, t)
                        &&& state2 == (ParticleState { position: t, ..state })
                        &&& r == seq![ParticleAction::SetPosition { position: t }]
                    },
                    None => *grid2 == *grid && state2 == state && r == Seq::<ParticleAction>::empty(),
                }
            },
            Behavior::LimitedLife(a) => {
                &&& *grid2 == *grid
                &&& state2 == state
                &&& *after == Behavior::LimitedLife(a.aged(state, dt))
                &&& a.lives(state, grid, dt, r)
            },
            Behavior::Flammable(a) => {
                &&& *grid2 == *grid
                &&& state2 == state
                &&& *after == Behavior::Flammable(a.heated(&state, grid, dt))
                &&& burns(&state, a.heated(&state, grid, dt).current_ignition_probability as int, r)
            },
            Behavior::AnimatedColor(a) => {
                let b = after->AnimatedColor_0;
                &&& after is AnimatedColor
                &&& *grid2 == *grid
                &&& state2 == state
                &&& b.colors == a.colors
                &&& b.frequency == a.frequency
                &&& a.colors@.len() == 0 ==> b == a && r == Seq::<ParticleAction>::empty()
                &&& a.colors@.len() > 0 ==> {
                    &&& b.elapsed_time == a.next_elapsed(dt)
                    &&& b.last_index == a.next_index(dt)
                    &&& r == if a.last_index == a.next_index(dt) {
                        Seq::<ParticleAction>::empty()
                    } else {
                        seq![ParticleAction::SetColor { color: a.colors@[a.next_index(dt)] }]
                    }
                }
            },
            Behavior::DieWhenCrushed(a) => {
                &&& *grid2 == *grid
                &&& state2 == state
                &&& *after == *self
                &&& a.smothers(&state, grid, r)
            },
            Behavior::CurrentMotion(a) => {
                &&& *grid2 == *grid
                &&& state2 == state
                &&& *after == *self
                &&& a.drifts(&state, grid, dt, r)
            },
            Behavior::AirLike(_) | Behavior::Igniter(_) => {
                *after == *self && *grid2 == *grid && state2 == state && r == Seq::<ParticleAction>::empty()
            },
        }
    }

    pub fn get_id(&self) -> (r: BehaviorId)
        ensures
            r == self.spec_id(),
    {
        match self {
            Behavior::MoveDown(b) => b.get_id(),
            Behavior::AirLike(b) => b.get_id(),
            Behavior::LimitedLife(b) => b.get_id(),
            Behavior::AnimatedColor(b) => b.get_id(),
            Behavior::Flammable(b) => b.get_id(),
            Behavior::DieWhenCrushed(b) => b.get_id(),
            Behavior::Igniter(b) => b.get_id(),
            Behavior::SidewaysMotionFallback(b) => b.get_id(),
            Behavior::CurrentMotion(b) => b.get_id(),
        }
    }

    /// One tick of this behavior for the particle at `state`. Motion moves the particle in
    /// `state` and in `grid` at once; everything else comes back as actions.
    pub fn update(&mut self, state: &mut ParticleState, dt: u32, grid: &mut Snapshot, rng: &mut StdRng) -> (r: Vec<ParticleAction>)
        requires
            old(self).wf(),
            old(grid).wf(),
            old(grid).in_bounds(old(state).position),
        ensures
            final(self).wf(),
            final(self).spec_id() == old(self).spec_id(),
            final(self).conserves_matter() == old(self).conserves_matter(),
            final(grid).wf(),
            final(grid).same_shape(old(grid)),
            final(grid).in_bounds(final(state).position),
            final(state).color == old(state).color,
            final(state).particle_id == old(state).particle_id,
            final(state).behaviors_ids == old(state).behaviors_ids,
            old(self).conserves_matter() ==> forall|k: int| 0 <= k < r@.len() ==> !(#[trigger] r@[k]).is_deferred(),
            old(self).acts_as(final(self), *old(state), old(grid), dt as int, *final(state), final(grid), r@),
    {
        match self {
            Behavior::MoveDown(b) => b.update(state, dt, grid, rng),
            Behavior::AirLike(_) => Vec::new(),
            Behavior::LimitedLife(b) => b.update(state, dt, grid, rng),
            Behavior::AnimatedColor(b) => b.update(dt),
            Behavior::Flammable(b) => b.update(state, dt, grid, rng),
            Behavior::DieWhenCrushed(b) => b.update(state, grid, rng),
            Behavior::Igniter(_) => Vec::new(),
            Behavior::SidewaysMotionFallback(b) => b.update(state, grid, rng),
            Behavior::CurrentMotion(b) => b.update(state, dt, grid, rng),
        }
    }
}

} // verus!
