//! Random decisions of the simulation, drawn from an explicit, seedable source.
use vstd::prelude::*;
use rand::rngs::StdRng;
use rand::Rng;
use rand::SeedableRng;

verus! {

/// A probability in parts per million: `CHANCE_ONE` is certainty.
pub type Chance = u32;

pub const CHANCE_ONE: Chance = 1_000_000;

#[verifier::external_type_specification]
#[verifier::external_body]
pub struct ExStdRng(StdRng);

/// Relies on `rand::SeedableRng::seed_from_u64`: a generator whose stream is fixed by the seed.
#[verifier::external_body]
pub fn seeded_rng(seed: u64) -> StdRng {
    StdRng::seed_from_u64(seed)
}

/// Relies on `rand::Rng::gen_range` over `0..n`: a value below `n` (it panics on an empty range).
#[verifier::external_body]
fn gen_below(rng: &mut StdRng, n: u32) -> (r: u32)
    requires
        n > 0,
    ensures
        r < n,
{
    rng.gen_range(0..n)
}

/// A uniform draw in `0..n`.
pub fn below(rng: &mut StdRng, n: u32) -> (r: u32)
    requires
        n > 0,
    ensures
        r < n,
{
    gen_below(rng, n)
}

/// A fair coin.
pub fn coin(rng: &mut StdRng) -> bool {
    gen_below(rng, 2) == 0
}

/// A uniform offset in `-d..=d`.
pub fn offset(rng: &mut StdRng, d: u32) -> (r: i64)
    requires
        d <= i32::MAX,
    ensures
        -(d as int) <= r <= d,
{
    let draw = gen_below(rng, 2 * d + 1);
    draw as i64 - d as i64
}

} // verus!
