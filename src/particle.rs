//! Particles: a species id, display state and an ordered list of behaviors.
use vstd::prelude::*;
use rand::rngs::StdRng;
use crate::behaviors::{
    AirLike, AnimatedColor, Behavior, BehaviorId, CurrentMotion, DieWhenCrushed, Flammable, Igniter,
    LimitedLife, MoveDown, SidewaysMotionFallback,
};
use crate::behaviors::move_down::SUBCELLS;
use crate::behaviors::AIR_LIKE_ID;
use crate::color::{is_shade_of, shaded, vary_color, Color};
use crate::grid::Position;
use crate::particle_action::{ParticleAction, Species};
use crate::random::below;
use crate::snapshot::Snapshot;

verus! {

pub type ParticleId = u8;

pub const EMPTY_ID: ParticleId = 0;
pub const SAND_ID: ParticleId = 1;
pub const WOOD_ID: ParticleId = 2;
pub const SMOKE_ID: ParticleId = 3;
pub const FIRE_ID: ParticleId = 4;
pub const WATER_ID: ParticleId = 5;

pub open spec fn species_id(species: Species) -> ParticleId {
    match species {
        Species::Empty => EMPTY_ID,
        Species::Sand => SAND_ID,
        Species::Wood => WOOD_ID,
        Species::Smoke => SMOKE_ID,
        Species::Fire => FIRE_ID,
        Species::Water => WATER_ID,
    }
}

/// What a particle shows and where it stands; behaviors borrow it for one update.
#[derive(Clone, Copy, Debug, PartialEq, Eq)]
pub struct ParticleState {
    pub color: Color,
    pub position: Position,
    pub particle_id: ParticleId,
    pub behaviors_ids: BehaviorId,
}

/// The union of the ids of `bs`.
pub open spec fn flags_of(bs: Seq<Behavior>) -> BehaviorId
    decreases bs.len(),
{
    if bs.len() == 0 {
        0
    } else {
        flags_of(bs.drop_last()) | bs.last().spec_id()
    }
}

proof fn lemma_flags_of_same_ids(a: Seq<Behavior>, b: Seq<Behavior>)
    requires
        a.len() == b.len(),
        forall|i: int| 0 <= i < a.len() ==> (#[trigger] a[i]).spec_id() == b[i].spec_id(),
    ensures
        flags_of(a) == flags_of(b),
    decreases a.len(),
{
    if a.len() > 0 {
        lemma_flags_of_same_ids(a.drop_last(), b.drop_last());
    }
}

/// `state` after the moves and colors among `acts`, in order.
pub open spec fn applied(state: ParticleState, acts: Seq<ParticleAction>) -> ParticleState
    decreases acts.len(),
{
    if acts.len() == 0 {
        state
    } else {
        let s = applied(state, acts.drop_last());
        match acts.last() {
            ParticleAction::SetPosition { position } => ParticleState { position, ..s },
            ParticleAction::SetColor { color } => ParticleState { color, ..s },
            _ => s,
        }
    }
}

/// The kill and spawn requests among `acts`, in order.
pub open spec fn deferred_of(acts: Seq<ParticleAction>) -> Seq<ParticleAction>
    decreases acts.len(),
{
    if acts.len() == 0 {
        Seq::empty()
    } else if acts.last().is_deferred() {
        deferred_of(acts.drop_last()).push(acts.last())
    } else {
        deferred_of(acts.drop_last())
    }
}

/// The lists of `outs` one after the other.
pub open spec fn concat_all(outs: Seq<Seq<ParticleAction>>) -> Seq<ParticleAction>
    decreases outs.len(),
{
    if outs.len() == 0 {
        Seq::empty()
    } else {
        concat_all(outs.drop_last()) + outs.last()
    }
}

/// Running the behaviors `before` in order, each on the state and grid the previous one left,
/// turned them into `after`, went through `states` and `grids`, and asked for `outs`.
pub open spec fn behaviors_ran(before: Seq<Behavior>, after: Seq<Behavior>, states: Seq<ParticleState>,
    grids: Seq<Snapshot>, outs: Seq<Seq<ParticleAction>>, dt: int) -> bool {
    &&& after.len() == before.len()
    &&& states.len() == before.len() + 1
    &&& grids.len() == before.len() + 1
    &&& outs.len() == before.len()
    &&& forall|k: int| 0 <= k < before.len() ==> #[trigger] before[k].acts_as(&after[k], states[k], &grids[k], dt,
        states[k + 1], &grids[k + 1], outs[k])
}

/// The base colors that fire cycles through.
pub open spec fn fire_palette() -> Seq<Color> {
    seq![
        Color { r: 84, g: 30, b: 30, a: 255 },
        Color { r: 255, g: 31, b: 31, a: 255 },
        Color { r: 234, g: 90, b: 0, a: 255 },
        Color { r: 255, g: 105, b: 0, a: 255 },
        Color { r: 238, g: 204, b: 9, a: 255 },
    ]
}

/// The gravity of sand and water for a particle starting at `position`.
pub open spec fn falling(position: Position) -> MoveDown {
    MoveDown { acceleration: 360_000, max_velocity: 480_000, velocity: 0, sub_row: (position.1 * SUBCELLS) as i64 }
}

pub struct Particle {
    pub state: ParticleState,
    pub behaviors: Vec<Behavior>,
    /// Whether the last update changed the particle.
    pub modified: bool,
    /// The kill and spawn requests of the last update, for the grid to apply.
    pub required_actions: Vec<ParticleAction>,
    /// The sweep that last updated the particle.
    pub generation: u64,
}

impl Particle {
    /// `after`, the grid `g1` and the result `r` are a possible outcome of one update of
    /// `before` standing at `position` on the grid `g0`: its behaviors run in order, each on
    /// what the previous one left; their moves and colors are applied in order; their kill and
    /// spawn requests are kept in order; `r` tells whether any action was asked for.
    pub open spec fn updated(before: &Particle, after: &Particle, position: Position, dt: int, g0: &Snapshot,
        g1: &Snapshot, r: bool) -> bool {
        &&& after.generation == before.generation
        &&& after.modified == r
        &&& exists|states: Seq<ParticleState>, grids: Seq<Snapshot>, outs: Seq<Seq<ParticleAction>>| {
            &&& #[trigger] behaviors_ran(before.behaviors@, after.behaviors@, states, grids, outs, dt)
            &&& states[0] == (ParticleState { position, ..before.state })
            &&& grids[0] == *g0
            &&& *g1 == grids.last()
            &&& after.state == applied(states.last(), concat_all(outs))
            &&& after.required_actions@ == deferred_of(concat_all(outs))
            &&& r == (concat_all(outs).len() > 0)
        }
    }

    pub open spec fn wf(&self) -> bool {
        &&& forall|i: int| 0 <= i < self.behaviors@.len() ==> (#[trigger] self.behaviors@[i]).wf()
        &&& self.state.behaviors_ids == flags_of(self.behaviors@)
        &&& forall|k: int| 0 <= k < self.required_actions@.len() ==> (#[trigger] self.required_actions@[k]).is_deferred()
    }

    /// None of the particle's behaviors ever asks for a kill or a spawn.
    pub open spec fn conserves_matter(&self) -> bool {
        forall|i: int| 0 <= i < self.behaviors@.len() ==> (#[trigger] self.behaviors@[i]).conserves_matter()
    }

    /// Runs every behavior in order for the particle standing at `position`, then applies what
    /// they asked for: moves and colors at once, kills and spawns kept for the grid. Returns
    /// whether anything was asked for.
    pub fn update(&mut self, position: Position, dt: u32, grid: &mut Snapshot, rng: &mut StdRng) -> (r: bool)
        requires
            old(self).wf(),
            old(grid).wf(),
            old(grid).in_bounds(position),
        ensures
            final(self).wf(),
            r == final(self).modified,
            final(self).state.particle_id == old(self).state.particle_id,
            final(self).state.behaviors_ids == old(self).state.behaviors_ids,
            final(self).generation == old(self).generation,
            final(self).conserves_matter() == old(self).conserves_matter(),
            old(self).conserves_matter() ==> final(self).required_actions@.len() == 0,
            final(grid).wf(),
            final(grid).same_shape(old(grid)),
            Particle::updated(old(self), final(self), position, dt as int, old(grid), final(grid), r),
    {
        self.modified = false;
        self.state.position = position;
        self.required_actions = Vec::new();
        let mut actions: Vec<ParticleAction> = Vec::new();
        let n = self.behaviors.len();
        let ghost mut states: Seq<ParticleState> = seq![self.state];
        let ghost mut grids: Seq<Snapshot> = seq![*grid];
        let ghost mut outs: Seq<Seq<ParticleAction>> = Seq::empty();
        let mut i: usize = 0;
        while i < n
            invariant
                states.len() == i + 1,
                grids.len() == i + 1,
                outs.len() == i,
                states[0] == (ParticleState { position, ..old(self).state }),
                grids[0] == *old(grid),
                states.last() == self.state,
                grids.last() == *grid,
                actions@ == concat_all(outs),
                forall|k: int| 0 <= k < i ==> #[trigger] old(self).behaviors@[k].acts_as(&self.behaviors@[k], states[k], &grids[k],
                    dt as int, states[k + 1], &grids[k + 1], outs[k]),
                forall|k: int| i <= k < n ==> #[trigger] self.behaviors@[k] == old(self).behaviors@[k],
                n == self.behaviors@.len(),
                old(self).behaviors@.len() == n,
                0 <= i <= n,
                grid.wf(),
                grid.same_shape(old(grid)),
                grid.in_bounds(self.state.position),
                self.state.particle_id == old(self).state.particle_id,
                self.state.behaviors_ids == old(self).state.behaviors_ids,
                self.state.behaviors_ids == flags_of(old(self).behaviors@),
                self.generation == old(self).generation,
                self.modified == false,
                self.required_actions@.len() == 0,
                forall|j: int| 0 <= j < n ==> (#[trigger] self.behaviors@[j]).wf(),
                forall|j: int| 0 <= j < n ==> (#[trigger] self.behaviors@[j]).spec_id() == old(self).behaviors@[j].spec_id(),
                forall|j: int| 0 <= j < n ==> (#[trigger] self.behaviors@[j]).conserves_matter() == old(self).behaviors@[j].conserves_matter(),
                old(self).conserves_matter() ==> forall|k: int| 0 <= k < actions@.len() ==> !(#[trigger] actions@[k]).is_deferred(),
            decreases n - i,
        {
            let ghost before = self.behaviors@;
            let mut produced = self.behaviors[i].update(&mut self.state, dt, grid, rng);
            proof {
                if old(self).conserves_matter() {
                    assert(old(self).behaviors@[i as int].conserves_matter());
                }
                let out = produced@;
                assert(outs.push(out).drop_last() =~= outs);
                states = states.push(self.state);
                grids = grids.push(*grid);
                outs = outs.push(out);
                assert forall|k: int| 0 <= k < i + 1 implies #[trigger] old(self).behaviors@[k].acts_as(&self.behaviors@[k], states[k],
                    &grids[k], dt as int, states[k + 1], &grids[k + 1], outs[k]) by {
                    if k < i {
                        assert(self.behaviors@[k] == before[k]);
                    }
                }
            }
            actions.append(&mut produced);
            i = i + 1;
        }
        let ghost ran_state = self.state;
        proof {
            lemma_flags_of_same_ids(self.behaviors@, old(self).behaviors@);
        }
        let ghost behaviors_after = self.behaviors@;
        let m = actions.len();
        let mut k: usize = 0;
        while k < m
            invariant
                m == actions@.len(),
                0 <= k <= m,
                self.wf(),
                self.state.particle_id == old(self).state.particle_id,
                self.state.behaviors_ids == old(self).state.behaviors_ids,
                self.generation == old(self).generation,
                self.behaviors@.len() == old(self).behaviors@.len(),
                forall|j: int| 0 <= j < self.behaviors@.len() ==> (#[trigger] self.behaviors@[j]).conserves_matter() == old(self).behaviors@[j].conserves_matter(),
                old(self).conserves_matter() ==> forall|q: int| 0 <= q < actions@.len() ==> !(#[trigger] actions@[q]).is_deferred(),
                old(self).conserves_matter() ==> self.required_actions@.len() == 0,
                k > 0 ==> self.modified,
                k == 0 ==> !self.modified,
                self.state == applied(ran_state, actions@.subrange(0, k as int)),
                self.required_actions@ == deferred_of(actions@.subrange(0, k as int)),
                self.behaviors@ == behaviors_after,
            decreases m - k,
        {
            let action = actions[k];
            self.handle_action(&action);
            proof {
                assert(actions@.subrange(0, k as int + 1).drop_last() =~= actions@.subrange(0, k as int));
            }
            k = k + 1;
        }
        proof {
            assert(actions@.subrange(0, m as int) =~= actions@);
            assert(behaviors_ran(old(self).behaviors@, self.behaviors@, states, grids, outs, dt as int));
        }
        proof {
            let n = self.behaviors@.len();
            if old(self).conserves_matter() {
                assert forall|j: int| 0 <= j < n implies (#[trigger] self.behaviors@[j]).conserves_matter() by {
                    assert(old(self).behaviors@[j].conserves_matter());
                }
            }
            if self.conserves_matter() {
                assert forall|j: int| 0 <= j < n implies (#[trigger] old(self).behaviors@[j]).conserves_matter() by {
                    assert(self.behaviors@[j].conserves_matter());
                }
            }
        }
        self.modified
    }

    /// Applies one action: a move or a color at once, a kill or a spawn kept for the grid.
    pub fn handle_action(&mut self, action: &ParticleAction)
        requires
            old(self).wf(),
        ensures
            final(self).wf(),
            final(self).modified,
            final(self).behaviors == old(self).behaviors,
            final(self).generation == old(self).generation,
            final(self).state.particle_id == old(self).state.particle_id,
            final(self).state.behaviors_ids == old(self).state.behaviors_ids,
            match *action {
                ParticleAction::SetPosition { position } => {
                    &&& final(self).state == (ParticleState { position, ..old(self).state })
                    &&& final(self).required_actions@ == old(self).required_actions@
                },
                ParticleAction::SetColor { color } => {
                    &&& final(self).state == (ParticleState { color, ..old(self).state })
                    &&& final(self).required_actions@ == old(self).required_actions@
                },
                _ => {
                    &&& final(self).state == old(self).state
                    &&& final(self).required_actions@ == old(self).required_actions@.push(*action)
                },
            },
    {
        match action {
            ParticleAction::SetPosition { position } => {
                self.state.position = *position;
            },
            ParticleAction::KillParticle { .. } => {
                self.required_actions.push(*action);
            },
            ParticleAction::SetColor { color } => {
                self.state.color = *color;
            },
            ParticleAction::SpawnParticle { .. } => {
                self.required_actions.push(*action);
            },
        }
        self.modified = true;
    }

    /// Hands the pending kill and spawn requests over to the caller, leaving none.
    pub fn take_required_actions(&mut self) -> (r: Vec<ParticleAction>)
        requires
            old(self).wf(),
        ensures
            final(self).wf(),
            r@ == old(self).required_actions@,
            final(self).required_actions@.len() == 0,
            final(self).state == old(self).state,
            final(self).behaviors == old(self).behaviors,
            final(self).generation == old(self).generation,
            final(self).modified == old(self).modified,
    {
        let mut r = Vec::new();
        std::mem::swap(&mut self.required_actions, &mut r);
        r
    }

    pub fn get_color(&self) -> (r: Color)
        ensures
            r == self.state.color,
    {
        self.state.color
    }

    pub fn get_id(&self) -> (r: ParticleId)
        ensures
            r == self.state.particle_id,
    {
        self.state.particle_id
    }

    pub fn get_required_actions(&self) -> (r: Vec<ParticleAction>)
        ensures
            r@ == self.required_actions@,
    {
        let mut r = Vec::new();
        let mut k: usize = 0;
        while k < self.required_actions.len()
            invariant
                0 <= k <= self.required_actions@.len(),
                r@ == self.required_actions@.subrange(0, k as int),
            decreases self.required_actions@.len() - k,
        {
            r.push(self.required_actions[k]);
            k = k + 1;
            assert(r@ =~= self.required_actions@.subrange(0, k as int));
        }
        assert(r@ =~= self.required_actions@);
        r
    }

    pub fn get_behaviors_ids(&self) -> (r: BehaviorId)
        ensures
            r == self.state.behaviors_ids,
    {
        self.state.behaviors_ids
    }

    pub fn get_position(&self) -> (r: Position)
        ensures
            r == self.state.position,
    {
        self.state.position
    }

    /// A particle of `particle_id` made of `behaviors`, whose flags are the union of their ids.
    pub fn new(position: Position, color: Color, particle_id: ParticleId, behaviors: Vec<Behavior>) -> (p: Particle)
        requires
            forall|i: int| 0 <= i < behaviors@.len() ==> (#[trigger] behaviors@[i]).wf(),
        ensures
            p.wf(),
            p.state == (ParticleState { color, position, particle_id, behaviors_ids: flags_of(behaviors@) }),
            p.behaviors@ == behaviors@,
            !p.modified,
            p.required_actions@.len() == 0,
            p.generation == 0,
    {
        let mut behaviors_ids: BehaviorId = 0;
        let mut i: usize = 0;
        while i < behaviors.len()
            invariant
                0 <= i <= behaviors@.len(),
                behaviors_ids == flags_of(behaviors@.subrange(0, i as int)),
            decreases behaviors@.len() - i,
        {
            proof {
                let s = behaviors@.subrange(0, i as int + 1);
                assert(s.drop_last() =~= behaviors@.subrange(0, i as int));
            }
            behaviors_ids = behaviors_ids | behaviors[i].get_id();
            i = i + 1;
        }
        assert(behaviors@.subrange(0, behaviors@.len() as int) =~= behaviors@);
        Particle {
            state: ParticleState { color, position, particle_id, behaviors_ids },
            behaviors,
            modified: false,
            required_actions: Vec::new(),
            generation: 0,
        }
    }

    /// Nothing: air that anything may fall through.
    pub fn new_empty(position: Position) -> (p: Particle)
        ensures
            p.wf(),
            p.state.particle_id == EMPTY_ID,
            p.state.position == position,
            p.state.color == Color::black_spec(),
            p.state.behaviors_ids == AIR_LIKE_ID,
            p.behaviors@ == seq![Behavior::AirLike(AirLike {})],
            p.conserves_matter(),
            p.required_actions@.len() == 0,
            p.generation == 0,
    {
        let mut behaviors = Vec::new();
        behaviors.push(AirLike::boxed());
        assert(behaviors@ =~= seq![Behavior::AirLike(AirLike {})]);
        proof {
            assert(behaviors@.drop_last() =~= Seq::<Behavior>::empty());
            assert(flags_of(Seq::<Behavior>::empty()) == 0);
            assert(behaviors@.last().spec_id() == AIR_LIKE_ID);
            assert(flags_of(behaviors@) == 0u16 | AIR_LIKE_ID);
            assert(0u16 | 4u16 == 4u16) by (bit_vector);
        }
        Self::new(position, Color::black(), EMPTY_ID, behaviors)
    }

    /// Sand: falls and piles up.
    pub fn new_sand(position: Position, rng: &mut StdRng) -> (p: Particle)
        ensures
            p.wf(),
            p.state.particle_id == SAND_ID,
            p.state.position == position,
            exists|shift: int| -10 <= shift <= 10 && p.state.color == shaded(Color { r: 246, g: 215, b: 176, a: 255 }, shift),
            p.behaviors@ == seq![Behavior::MoveDown(falling(position))],
            p.conserves_matter(),
            p.required_actions@.len() == 0,
    {
        let mut behaviors = Vec::new();
        behaviors.push(MoveDown::boxed(position, 480_000, 360_000));
        assert(behaviors@ =~= seq![Behavior::MoveDown(falling(position))]);
        let color = vary_color(Color::rgba(246, 215, 176, 255), 10, rng);
        Self::new(position, color, SAND_ID, behaviors)
    }

    /// Wood: stays put and catches fire.
    pub fn new_wood(position: Position, rng: &mut StdRng) -> (p: Particle)
        ensures
            p.wf(),
            p.state.particle_id == WOOD_ID,
            p.state.position == position,
            exists|shift: int| -10 <= shift <= 10 && p.state.color == shaded(Color { r: 68, g: 48, b: 34, a: 255 }, shift),
            p.behaviors@.len() == 1,
            p.behaviors@[0] is Flammable,
            p.behaviors@[0]->Flammable_0.ignition_rate == 100_000,
            p.behaviors@[0]->Flammable_0.ignition_radius == 3,
            p.behaviors@[0]->Flammable_0.current_ignition_probability == 0,
            p.required_actions@.len() == 0,
    {
        let mut behaviors = Vec::new();
        behaviors.push(Flammable::boxed(100_000, 3));
        let color = vary_color(Color::rgba(68, 48, 34, 255), 10, rng);
        Self::new(position, color, WOOD_ID, behaviors)
    }

    /// Smoke: rises through empty cells, fades and vanishes after four to seven and a half seconds.
    pub fn new_smoke(position: Position, rng: &mut StdRng) -> (p: Particle)
        ensures
            p.wf(),
            p.state.particle_id == SMOKE_ID,
            p.state.position == position,
            exists|shift: int| -3 <= shift <= 3 && p.state.color == shaded(Color { r: 76, g: 74, b: 77, a: 255 }, shift),
            p.behaviors@.len() == 3,
            p.behaviors@[0] == Behavior::MoveDown(MoveDown {
                acceleration: -10_800i64,
                max_velocity: 30_000,
                velocity: 0,
                sub_row: (position.1 * SUBCELLS) as i64,
            }),
            p.behaviors@[1] == Behavior::AirLike(AirLike {}),
            p.behaviors@[2] is LimitedLife,
            4_000_000 <= p.behaviors@[2]->LimitedLife_0.lifetime <= 7_500_000,
            p.behaviors@[2]->LimitedLife_0.elapsed_time == 0,
            p.behaviors@[2]->LimitedLife_0.spawn_species is None,
            p.required_actions@.len() == 0,
    {
        let lifetime = 4_000_000 + below(rng, 3_500_001);
        let mut behaviors = Vec::new();
        behaviors.push(MoveDown::boxed(position, 30_000, -10_800));
        behaviors.push(AirLike::boxed());
        behaviors.push(LimitedLife::boxed(lifetime));
        let color = vary_color(Color::rgba(76, 74, 77, 255), 3, rng);
        Self::new(position, color, SMOKE_ID, behaviors)
    }

    /// Fire: flickers, ignites what burns near it, dies when smothered and otherwise after
    /// one to three seconds, mostly leaving smoke.
    pub fn new_fire(position: Position, rng: &mut StdRng) -> (p: Particle)
        ensures
            p.wf(),
            p.state.particle_id == FIRE_ID,
            p.state.position == position,
            p.state.color == (Color { r: 255, g: 255, b: 0, a: 255 }),
            p.behaviors@.len() == 4,
            p.behaviors@[0] is LimitedLife,
            1_000_000 <= p.behaviors@[0]->LimitedLife_0.lifetime <= 3_000_000,
            p.behaviors@[0]->LimitedLife_0.elapsed_time == 0,
            p.behaviors@[0]->LimitedLife_0.spawn_species == Some(Species::Smoke),
            p.behaviors@[0]->LimitedLife_0.spawn_probability == 850_000,
            p.behaviors@[0]->LimitedLife_0.spawn_distance == (1i32, 1i32),
            p.behaviors@[1] is AnimatedColor,
            p.behaviors@[1]->AnimatedColor_0.colors@.len() == 5,
            forall|k: int| 0 <= k < 5 ==> is_shade_of(#[trigger] p.behaviors@[1]->AnimatedColor_0.colors@[k], fire_palette()[k], 10),
            5_000 <= p.behaviors@[1]->AnimatedColor_0.frequency <= 10_000,
            p.behaviors@[2] == Behavior::DieWhenCrushed(DieWhenCrushed { crushing_probability: 500_000 }),
            p.behaviors@[3] == Behavior::Igniter(Igniter {}),
            p.required_actions@.len() == 0,
    {
        let lifetime = 1_000_000 + below(rng, 2_000_001);
        let frequency = 5_000 + below(rng, 5_001);
        let mut palette = Vec::new();
        palette.push(vary_color(Color::rgba(84, 30, 30, 255), 10, rng));
        palette.push(vary_color(Color::rgba(255, 31, 31, 255), 10, rng));
        palette.push(vary_color(Color::rgba(234, 90, 0, 255), 10, rng));
        palette.push(vary_color(Color::rgba(255, 105, 0, 255), 10, rng));
        palette.push(vary_color(Color::rgba(238, 204, 9, 255), 10, rng));
        proof {
            assert forall|k: int| 0 <= k < 5 implies is_shade_of(#[trigger] palette@[k], fire_palette()[k], 10) by {
                if k == 0 {} else if k == 1 {} else if k == 2 {} else if k == 3 {} else {}
            }
        }
        let mut behaviors = Vec::new();
        behaviors.push(LimitedLife::boxed_with_spawn(lifetime, 850_000, Species::Smoke, (1, 1)));
        behaviors.push(AnimatedColor::boxed(palette, frequency));
        behaviors.push(DieWhenCrushed::boxed(500_000));
        behaviors.push(Igniter::boxed());
        Self::new(position, Color::rgba(255, 255, 0, 255), FIRE_ID, behaviors)
    }

    /// Water: falls, and slides sideways when nothing below is open.
    pub fn new_water(position: Position, rng: &mut StdRng) -> (p: Particle)
        ensures
            p.wf(),
            p.state.particle_id == WATER_ID,
            p.state.position == position,
            exists|shift: int| -3 <= shift <= 3 && p.state.color == shaded(Color { r: 30, g: 120, b: 190, a: 255 }, shift),
            p.behaviors@ == seq![
                Behavior::MoveDown(falling(position)),
                Behavior::SidewaysMotionFallback(SidewaysMotionFallback { last_position: position }),
            ],
            p.conserves_matter(),
            p.required_actions@.len() == 0,
    {
        let mut behaviors = Vec::new();
        behaviors.push(MoveDown::boxed(position, 480_000, 360_000));
        behaviors.push(SidewaysMotionFallback::boxed(&position));
        assert(behaviors@ =~= seq![
            Behavior::MoveDown(falling(position)),
            Behavior::SidewaysMotionFallback(SidewaysMotionFallback { last_position: position }),
        ]);
        let color = vary_color(Color::rgba(30, 120, 190, 255), 3, rng);
        Self::new(position, color, WATER_ID, behaviors)
    }

    /// A new particle of `species` at `position`.
    pub fn of_species(species: Species, position: Position, rng: &mut StdRng) -> (p: Particle)
        ensures
            p.wf(),
            p.state.particle_id == species_id(species),
            p.state.position == position,
            p.required_actions@.len() == 0,
            species == Species::Empty ==> p.conserves_matter(),
    {
        match species {
            Species::Empty => Self::new_empty(position),
            Species::Sand => Self::new_sand(position, rng),
            Species::Wood => Self::new_wood(position, rng),
            Species::Smoke => Self::new_smoke(position, rng),
            Species::Fire => Self::new_fire(position, rng),
            Species::Water => Self::new_water(position, rng),
        }
    }
}

} // verus!
