//! Brushes: how a pointer paints particles onto the grid.
use vstd::prelude::*;
use crate::particle::{ParticleId, EMPTY_ID, FIRE_ID, SAND_ID, SMOKE_ID, WATER_ID, WOOD_ID};
use crate::particle_action::Species;
use crate::random::Chance;

verus! {

#[derive(Clone, Copy, Debug, PartialEq, Eq, Structural)]
pub enum BrushType {
    Circle,
}

/// A round brush of radius `size` that paints `species` into each cell with `probability`.
#[derive(Clone, Copy, Debug, PartialEq, Eq, Structural)]
pub struct BrushSettings {
    pub size: i32,
    pub brush_type: BrushType,
    pub species: Species,
    pub probability: Chance,
}

impl BrushSettings {
    pub fn new(size: i32, probability: Chance, brush_type: BrushType, species: Species) -> (b: BrushSettings)
        ensures
            b == (BrushSettings { size, brush_type, species, probability }),
    {
        BrushSettings { size, brush_type, species, probability }
    }
}

/// The brush for each species, keyed by its particle id.
pub fn make_default_brush_settings_map() -> (r: Vec<(ParticleId, BrushSettings)>)
    ensures
        r@ == seq![
            (SAND_ID, BrushSettings { size: 3, probability: 350_000, brush_type: BrushType::Circle, species: Species::Sand }),
            (WOOD_ID, BrushSettings { size: 3, probability: 700_000, brush_type: BrushType::Circle, species: Species::Wood }),
            (EMPTY_ID, BrushSettings { size: 3, probability: 1_000_000, brush_type: BrushType::Circle, species: Species::Empty }),
            (SMOKE_ID, BrushSettings { size: 3, probability: 150_000, brush_type: BrushType::Circle, species: Species::Smoke }),
            (FIRE_ID, BrushSettings { size: 3, probability: 70_000, brush_type: BrushType::Circle, species: Species::Fire }),
            (WATER_ID, BrushSettings { size: 3, probability: 400_000, brush_type: BrushType::Circle, species: Species::Water }),
        ],
{
    let mut r = Vec::new();
    r.push((SAND_ID, BrushSettings::new(3, 350_000, BrushType::Circle, Species::Sand)));
    r.push((WOOD_ID, BrushSettings::new(3, 700_000, BrushType::Circle, Species::Wood)));
    r.push((EMPTY_ID, BrushSettings::new(3, 1_000_000, BrushType::Circle, Species::Empty)));
    r.push((SMOKE_ID, BrushSettings::new(3, 150_000, BrushType::Circle, Species::Smoke)));
    r.push((FIRE_ID, BrushSettings::new(3, 70_000, BrushType::Circle, Species::Fire)));
    r.push((WATER_ID, BrushSettings::new(3, 400_000, BrushType::Circle, Species::Water)));
    assert(r@ =~= seq![
        (SAND_ID, BrushSettings { size: 3, probability: 350_000, brush_type: BrushType::Circle, species: Species::Sand }),
        (WOOD_ID, BrushSettings { size: 3, probability: 700_000, brush_type: BrushType::Circle, species: Species::Wood }),
        (EMPTY_ID, BrushSettings { size: 3, probability: 1_000_000, brush_type: BrushType::Circle, species: Species::Empty }),
        (SMOKE_ID, BrushSettings { size: 3, probability: 150_000, brush_type: BrushType::Circle, species: Species::Smoke }),
        (FIRE_ID, BrushSettings { size: 3, probability: 70_000, brush_type: BrushType::Circle, species: Species::Fire }),
        (WATER_ID, BrushSettings { size: 3, probability: 400_000, brush_type: BrushType::Circle, species: Species::Water }),
    ]);
    r
}

} // verus!
