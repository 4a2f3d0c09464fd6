use vstd::prelude::*;
use crate::behaviors::{Behavior, BehaviorId, ANIMATED_COLOR_ID};
use crate::color::Color;
use crate::particle_action::{single, ParticleAction};

verus! {

/// The palette index `elapsed` microseconds into a cycle at `frequency` thousandths of a hertz.
pub open spec fn palette_frame(elapsed: int, frequency: int) -> int {
    elapsed * frequency / 1_000_000_000
}

/// Cycles through a palette at a fixed frequency.
pub struct AnimatedColor {
    pub colors: Vec<Color>,
    /// Palette steps per thousand seconds.
    pub frequency: u32,
    /// Microseconds into the present cycle.
    pub elapsed_time: u64,
    /// The palette index shown last; `usize::MAX`, which no index takes, before the first tick.
    pub last_index: usize,
}

impl AnimatedColor {
    pub fn boxed(colors: Vec<Color>, frequency: u32) -> (b: Behavior)
        ensures
            b is AnimatedColor,
            b->AnimatedColor_0.colors@ == colors@,
            b->AnimatedColor_0.frequency == frequency,
            b->AnimatedColor_0.elapsed_time == 0,
            b->AnimatedColor_0.last_index == usize::MAX,
    {
        Behavior::AnimatedColor(AnimatedColor { colors, frequency, elapsed_time: 0, last_index: usize::MAX })
    }

    pub fn get_id(&self) -> (r: BehaviorId)
        ensures
            r == ANIMATED_COLOR_ID,
    {
        ANIMATED_COLOR_ID
    }

    /// The time lived after a tick of `dt`, held at `u64::MAX`.
    pub open spec fn next_elapsed(&self, dt: int) -> int {
        if self.elapsed_time + dt > u64::MAX { u64::MAX as int } else { self.elapsed_time + dt }
    }

    /// The palette index after a tick of `dt`: the frame count modulo the palette length.
    pub open spec fn next_index(&self, dt: int) -> int {
        palette_frame(self.next_elapsed(dt), self.frequency as int) % (self.colors@.len() as int)
    }

    /// One tick: asks for the palette color whose turn it is, when that changed.
    /// An empty palette never asks for anything.
    pub fn update(&mut self, dt: u32) -> (r: Vec<ParticleAction>)
        ensures
            final(self).colors == old(self).colors,
            final(self).frequency == old(self).frequency,
            old(self).colors@.len() == 0 ==> *final(self) == *old(self) && r@ == Seq::<ParticleAction>::empty(),
            old(self).colors@.len() > 0 ==> {
                let k = old(self).next_index(dt as int);
                &&& final(self).elapsed_time == old(self).next_elapsed(dt as int)
                &&& final(self).last_index == k
                &&& r@ == if old(self).last_index == k {
                    Seq::<ParticleAction>::empty()
                } else {
                    seq![ParticleAction::SetColor { color: old(self).colors@[k] }]
                }
            },
    {
        let n = self.colors.len();
        if n == 0 {
            return Vec::new();
        }
        let e = self.elapsed_time.saturating_add(dt as u64);
        assert((e as int) * (self.frequency as int) <= (u64::MAX as int) * (u32::MAX as int)) by (nonlinear_arith)
            requires e <= u64::MAX, self.frequency <= u32::MAX;
        let frame = (e as u128) * (self.frequency as u128) / 1_000_000_000;
        let index = (frame % (n as u128)) as usize;
        self.elapsed_time = e;
        if self.last_index != index {
            self.last_index = index;
            single(ParticleAction::SetColor { color: self.colors[index] })
        } else {
            Vec::new()
        }
    }
}

} // verus!
