//! The requests that behaviors hand to their particle and, through it, to the grid.
use vstd::prelude::*;
use crate::color::Color;
use crate::grid::Position;

verus! {

/// The kinds of particle that the grid can build.
#[derive(Clone, Copy, Debug, PartialEq, Eq, Structural)]
pub enum Species {
    Empty,
    Sand,
    Wood,
    Smoke,
    Fire,
    Water,
}

#[derive(Clone, Copy, Debug, PartialEq, Eq)]
pub enum ParticleAction {
    SetPosition { position: Position },
    KillParticle { position: Position },
    SpawnParticle { species: Species, position: Position },
    SetColor { color: Color },
}

impl ParticleAction {
    /// Kill and spawn requests change which particles exist, so only the grid applies them.
    pub open spec fn is_deferred(&self) -> bool {
        self is KillParticle || self is SpawnParticle
    }
}

/// A list of the one action `a`.
pub fn single(a: ParticleAction) -> (r: Vec<ParticleAction>)
    ensures
        r@ == seq![a],
{
    let mut r = Vec::new();
    r.push(a);
    assert(r@ =~= seq![a]);
    r
}

} // verus!
