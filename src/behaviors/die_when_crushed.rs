use vstd::prelude::*;
use rand::rngs::StdRng;
use crate::behaviors::{has_behavior, cell_has_behavior, Behavior, BehaviorId, AIR_LIKE_ID, DIE_WHEN_CRUSHED_ID};
use crate::particle::ParticleState;
use crate::particle_action::{single, ParticleAction};
use crate::random::{below, Chance, CHANCE_ONE};
use crate::snapshot::Snapshot;

verus! {

/// The cell above `state` holds another particle, which is not air-like.
pub open spec fn is_crushed(state: &ParticleState, grid: &Snapshot) -> bool {
    let above = (state.position.0, (state.position.1 - 1) as i32);
    &&& state.position.1 >= 1
    &&& grid.id_at(above) != state.particle_id
    &&& !cell_has_behavior(above, grid, AIR_LIKE_ID)
}

/// A particle smothered by whatever lies on it: with some chance per tick it dies.
pub struct DieWhenCrushed {
    pub crushing_probability: Chance,
}

impl DieWhenCrushed {
    pub fn boxed(crushing_probability: Chance) -> (b: Behavior)
        ensures
            b == Behavior::DieWhenCrushed(DieWhenCrushed { crushing_probability }),
    {
        Behavior::DieWhenCrushed(DieWhenCrushed { crushing_probability })
    }

    pub fn get_id(&self) -> (r: BehaviorId)
        ensures
            r == DIE_WHEN_CRUSHED_ID,
    {
        DIE_WHEN_CRUSHED_ID
    }

    /// `r` is what a tick asks for, for some draw below `CHANCE_ONE`.
    pub open spec fn smothers(&self, state: &ParticleState, grid: &Snapshot, r: Seq<ParticleAction>) -> bool {
        exists|draw: int| 0 <= draw < CHANCE_ONE && r == #[trigger] crush_actions(state, grid, draw, self.crushing_probability as int)
    }

    /// One tick with the draw given: when crushed and `draw` falls below
    /// `crushing_probability`, asks for the particle's death.
    pub fn step(&self, state: &ParticleState, grid: &Snapshot, draw: u32) -> (r: Vec<ParticleAction>)
        requires
            grid.wf(),
            grid.in_bounds(state.position),
        ensures
            r@ == crush_actions(state, grid, draw as int, self.crushing_probability as int),
    {
        if state.position.1 >= 1 {
            let above = (state.position.0, state.position.1 - 1);
            if grid.id(above) != state.particle_id && !has_behavior(above, grid, AIR_LIKE_ID)
                && draw < self.crushing_probability {
                return single(ParticleAction::KillParticle { position: state.position });
            }
        }
        Vec::new()
    }

    /// One tick, with the draw made at random.
    pub fn update(&self, state: &ParticleState, grid: &Snapshot, rng: &mut StdRng) -> (r: Vec<ParticleAction>)
        requires
            grid.wf(),
            grid.in_bounds(state.position),
        ensures
            self.smothers(state, grid, r@),
    {
        let draw = below(rng, CHANCE_ONE);
        self.step(state, grid, draw)
    }
}

/// A crushed particle asks for its death when `draw` falls below `chance`; else nothing.
pub open spec fn crush_actions(state: &ParticleState, grid: &Snapshot, draw: int, chance: int) -> Seq<ParticleAction> {
    if is_crushed(state, grid) && draw < chance {
        seq![ParticleAction::KillParticle { position: state.position }]
    } else {
        Seq::empty()
    }
}

} // verus!
