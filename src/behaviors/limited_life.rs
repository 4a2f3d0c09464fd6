use vstd::prelude::*;
use rand::rngs::StdRng;
use crate::behaviors::{Behavior, BehaviorId, LIMITED_LIFE_ID};
use crate::color::{darken_color, lerp_color, Color};
use crate::grid::Position;
use crate::particle::ParticleState;
use crate::particle_action::{ParticleAction, Species};
use crate::random::{below, offset, Chance, CHANCE_ONE};
use crate::snapshot::Snapshot;

verus! {

pub open spec fn clamp_to(v: int, lo: int, hi: int) -> int {
    if v < lo {
        lo
    } else if v > hi {
        hi
    } else {
        v
    }
}

/// `center` moved by `(dx, dy)`, kept on a `width` × `height` grid.
pub open spec fn spawn_spot(center: Position, dx: int, dy: int, width: int, height: int) -> Position {
    (clamp_to(center.0 + dx, 0, width - 1) as i32, clamp_to(center.1 + dy, 0, height - 1) as i32)
}

/// A particle that lives a fixed time: it fades toward black as its life runs out, then asks
/// to be killed and, if it has a successor, maybe for one to be spawned near it.
pub struct LimitedLife {
    /// Microseconds lived, at most `lifetime`.
    pub elapsed_time: u32,
    /// Microseconds of life, at least one.
    pub lifetime: u32,
    pub spawn_probability: Chance,
    /// What the particle leaves behind, if anything.
    pub spawn_species: Option<Species>,
    /// The largest column and row distance of the successor.
    pub spawn_distance: (i32, i32),
    /// The color the fade starts from: the particle's color on its first tick.
    pub start_color: Option<Color>,
}

impl LimitedLife {
    pub open spec fn wf(&self) -> bool {
        &&& 1 <= self.lifetime
        &&& self.elapsed_time <= self.lifetime
        &&& 0 <= self.spawn_distance.0
        &&& 0 <= self.spawn_distance.1
    }

    pub open spec fn next_elapsed(&self, dt: int) -> int {
        if self.elapsed_time + dt > self.lifetime {
            self.lifetime as int
        } else {
            self.elapsed_time + dt
        }
    }

    pub open spec fn fade_start(&self, state: ParticleState) -> Color {
        match self.start_color {
            Some(c) => c,
            None => state.color,
        }
    }

    /// A zero lifetime is taken as one microsecond.
    pub fn boxed(lifetime: u32) -> (b: Behavior)
        ensures
            b is LimitedLife,
            b->LimitedLife_0.wf(),
            b->LimitedLife_0.lifetime == if lifetime == 0 { 1 } else { lifetime },
            b->LimitedLife_0.elapsed_time == 0,
            b->LimitedLife_0.spawn_species is None,
            b->LimitedLife_0.spawn_probability == 0,
            b->LimitedLife_0.spawn_distance == (0i32, 0i32),
            b->LimitedLife_0.start_color is None,
    {
        Behavior::LimitedLife(LimitedLife {
            elapsed_time: 0,
            lifetime: if lifetime == 0 { 1 } else { lifetime },
            spawn_probability: 0,
            spawn_species: None,
            spawn_distance: (0, 0),
            start_color: None,
        })
    }

    /// A zero lifetime is taken as one microsecond, a negative distance as zero.
    pub fn boxed_with_spawn(lifetime: u32, spawn_probability: Chance, spawn_species: Species, spawn_distance: Position) -> (b: Behavior)
        ensures
            b is LimitedLife,
            b->LimitedLife_0.wf(),
            b->LimitedLife_0.lifetime == if lifetime == 0 { 1 } else { lifetime },
            b->LimitedLife_0.elapsed_time == 0,
            b->LimitedLife_0.spawn_probability == spawn_probability,
            b->LimitedLife_0.spawn_species == Some(spawn_species),
            b->LimitedLife_0.spawn_distance.0 == if spawn_distance.0 < 0 { 0 } else { spawn_distance.0 },
            b->LimitedLife_0.spawn_distance.1 == if spawn_distance.1 < 0 { 0 } else { spawn_distance.1 },
            b->LimitedLife_0.start_color is None,
    {
        Behavior::LimitedLife(LimitedLife {
            elapsed_time: 0,
            lifetime: if lifetime == 0 { 1 } else { lifetime },
            spawn_probability,
            spawn_species: Some(spawn_species),
            spawn_distance: (
                if spawn_distance.0 < 0 { 0 } else { spawn_distance.0 },
                if spawn_distance.1 < 0 { 0 } else { spawn_distance.1 },
            ),
            start_color: None,
        })
    }

    pub fn get_id(&self) -> (r: BehaviorId)
        ensures
            r == LIMITED_LIFE_ID,
    {
        LIMITED_LIFE_ID
    }

    /// The behavior after a tick of `dt` for the particle at `state`.
    pub open spec fn aged(&self, state: ParticleState, dt: int) -> LimitedLife {
        LimitedLife { elapsed_time: self.next_elapsed(dt) as u32, start_color: Some(self.fade_start(state)), ..*self }
    }

    /// What a tick of `dt` asks for, with `draw` set against the spawn chance and `(dx, dy)`
    /// the offset of the successor: the faded color; at the end of life also the particle's
    /// death and, if it has a successor and the draw falls below the chance, a spawn at the
    /// offset cell kept on the grid.
    pub open spec fn life_step(&self, state: ParticleState, grid: &Snapshot, dt: int, draw: int, dx: int, dy: int) -> Seq<ParticleAction> {
        let elapsed = self.next_elapsed(dt);
        let fade = ParticleAction::SetColor {
            color: lerp_color(self.fade_start(state), Color::black_spec(), elapsed, self.lifetime as int),
        };
        if elapsed < self.lifetime {
            seq![fade]
        } else {
            let dead = seq![fade, ParticleAction::KillParticle { position: state.position }];
            match self.spawn_species {
                Some(species) => if draw < self.spawn_probability {
                    dead.push(ParticleAction::SpawnParticle {
                        species,
                        position: spawn_spot(state.position, dx, dy, grid.width as int, grid.height as int),
                    })
                } else {
                    dead
                },
                None => dead,
            }
        }
    }

    /// `r` is what a tick asks for, for some draw below `CHANCE_ONE` and some offset within
    /// `spawn_distance`.
    pub open spec fn lives(&self, state: ParticleState, grid: &Snapshot, dt: int, r: Seq<ParticleAction>) -> bool {
        exists|draw: int, dx: int, dy: int| {
            &&& 0 <= draw < CHANCE_ONE
            &&& -self.spawn_distance.0 <= dx <= self.spawn_distance.0
            &&& -self.spawn_distance.1 <= dy <= self.spawn_distance.1
            &&& r == #[trigger] self.life_step(state, grid, dt, draw, dx, dy)
        }
    }

    /// One tick with the draw and the offset given: ages the particle, asks for its faded
    /// color and, once its life is over, for its death and perhaps for a successor.
    pub fn step(&mut self, state: &ParticleState, dt: u32, grid: &Snapshot, draw: u32, dx: i64, dy: i64) -> (r: Vec<ParticleAction>)
        requires
            old(self).wf(),
            grid.wf(),
            grid.in_bounds(state.position),
            i32::MIN <= dx <= i32::MAX,
            i32::MIN <= dy <= i32::MAX,
        ensures
            final(self).wf(),
            *final(self) == old(self).aged(*state, dt as int),
            r@ == old(self).life_step(*state, grid, dt as int, draw as int, dx as int, dy as int),
    {
        let start = match self.start_color {
            Some(c) => c,
            None => state.color,
        };
        self.start_color = Some(start);
        if self.elapsed_time as u64 + dt as u64 > self.lifetime as u64 {
            self.elapsed_time = self.lifetime;
        } else {
            self.elapsed_time = self.elapsed_time + dt;
        }
        let color = darken_color(start, self.lifetime - self.elapsed_time, self.lifetime);
        let mut actions = Vec::new();
        actions.push(ParticleAction::SetColor { color });
        if self.elapsed_time >= self.lifetime {
            actions.push(ParticleAction::KillParticle { position: state.position });
            match self.spawn_species {
                Some(species) => {
                    if draw < self.spawn_probability {
                        let position = spawn_position(state.position, dx, dy, grid.width, grid.height);
                        actions.push(ParticleAction::SpawnParticle { species, position });
                    }
                },
                None => {},
            }
        }
        proof {
            let expected = old(self).life_step(*state, grid, dt as int, draw as int, dx as int, dy as int);
            assert(actions@ =~= expected);
        }
        actions
    }

    /// One tick, with the draw and the offset made at random.
    pub fn update(&mut self, state: &ParticleState, dt: u32, grid: &Snapshot, rng: &mut StdRng) -> (r: Vec<ParticleAction>)
        requires
            old(self).wf(),
            grid.wf(),
            grid.in_bounds(state.position),
        ensures
            final(self).wf(),
            *final(self) == old(self).aged(*state, dt as int),
            old(self).lives(*state, grid, dt as int, r@),
    {
        let draw = below(rng, CHANCE_ONE);
        let dx = offset(rng, self.spawn_distance.0 as u32);
        let dy = offset(rng, self.spawn_distance.1 as u32);
        let r = self.step(state, dt, grid, draw, dx, dy);
        assert(r@ == old(self).life_step(*state, grid, dt as int, draw as int, dx as int, dy as int));
        r
    }
}

/// `center` moved by `(dx, dy)` and kept on a `width` × `height` grid.
pub fn spawn_position(center: Position, dx: i64, dy: i64, width: i32, height: i32) -> (r: Position)
    requires
        1 <= width,
        1 <= height,
        i32::MIN <= dx <= i32::MAX,
        i32::MIN <= dy <= i32::MAX,
    ensures
        r == spawn_spot(center, dx as int, dy as int, width as int, height as int),
{
    let x = center.0 as i64 + dx;
    let y = center.1 as i64 + dy;
    let nx = if x < 0 { 0 } else if x > width as i64 - 1 { width as i64 - 1 } else { x };
    let ny = if y < 0 { 0 } else if y > height as i64 - 1 { height as i64 - 1 } else { y };
    (nx as i32, ny as i32)
}

} // verus!
