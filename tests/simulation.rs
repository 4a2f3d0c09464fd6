use sandsim::behaviors::{
    has_behavior, AnimatedColor, Behavior, CurrentMotion, DieWhenCrushed, Flammable, Igniter, LimitedLife, MoveDown,
    SidewaysMotionFallback, AIR_LIKE_ID, IGNITER_ID,
};
use sandsim::brush_settings::{make_default_brush_settings_map, BrushSettings, BrushType};
use sandsim::color::{color_interpolation, shade_color, Color};
use sandsim::grid::Grid;
use sandsim::particle::{Particle, ParticleState, EMPTY_ID, FIRE_ID, SAND_ID, SMOKE_ID, WATER_ID, WOOD_ID};
use sandsim::particle_action::{ParticleAction, Species};
use sandsim::random::{below, seeded_rng};
use sandsim::snapshot::Snapshot;

const FRAME: u32 = 16_667;

fn ids(grid: &Grid) -> Vec<u8> {
    let mut r = Vec::new();
    for y in 0..grid.height {
        for x in 0..grid.width {
            r.push(grid.get((x, y)).get_id());
        }
    }
    r
}

fn count(grid: &Grid, id: u8) -> usize {
    ids(grid).iter().filter(|&&i| i == id).count()
}

fn empty_snapshot(width: i32, height: i32) -> Snapshot {
    let n = (width * height) as usize;
    Snapshot { width, height, ids: vec![EMPTY_ID; n], flags: vec![AIR_LIKE_ID; n] }
}

fn fast_sand(position: (i32, i32)) -> Particle {
    Particle::new(position, Color::rgba(246, 215, 176, 255), SAND_ID, vec![MoveDown::boxed(position, 60_000, 3_600_000)])
}

#[test]
fn falling_sand_reaches_the_bottom_row() {
    let mut grid = Grid::new(25, 25, 7);
    assert_eq!((grid.width, grid.height), (5, 5));
    grid.set((2, 0), fast_sand((2, 0)));
    for _ in 0..5 {
        grid.update(FRAME);
        assert_eq!(count(&grid, SAND_ID), 1);
        assert_eq!(count(&grid, EMPTY_ID), 24);
    }
    assert_eq!(grid.get((2, 4)).get_id(), SAND_ID);
    for _ in 0..10 {
        grid.update(FRAME);
        assert_eq!(grid.get((2, 4)).get_id(), SAND_ID);
        assert_eq!(count(&grid, SAND_ID), 1);
    }
}

#[test]
fn wood_next_to_an_igniter_turns_into_fire() {
    let mut grid = Grid::new(25, 25, 11);
    let wood = Particle::new((2, 2), Color::rgba(68, 48, 34, 255), WOOD_ID, vec![Flammable::boxed(1_000_000, 1)]);
    let igniter = Particle::new((1, 2), Color::rgba(255, 255, 0, 255), FIRE_ID, vec![Igniter::boxed()]);
    grid.set((2, 2), wood);
    grid.set((1, 2), igniter);
    let mut ticks = 0;
    while grid.get((2, 2)).get_id() == WOOD_ID && ticks < 1000 {
        grid.update(FRAME);
        ticks += 1;
    }
    // Each tick adds 1.0 * dt / 8 to the chance, which is certain after 481 ticks.
    assert!(ticks <= 481);
    assert_eq!(grid.get((2, 2)).get_id(), FIRE_ID);
    assert_eq!(grid.get((1, 2)).get_id(), FIRE_ID);
}

#[test]
fn limited_life_asks_for_death_after_its_lifetime() {
    let mut rng = seeded_rng(3);
    let mut snapshot = empty_snapshot(1, 1);
    let mut particle = Particle::new((0, 0), Color::rgba(200, 100, 50, 255), SMOKE_ID, vec![LimitedLife::boxed(1_000_000)]);
    particle.update((0, 0), 500_000, &mut snapshot, &mut rng);
    assert!(!particle.get_required_actions().contains(&ParticleAction::KillParticle { position: (0, 0) }));
    assert_eq!(particle.get_color(), Color::rgba(100, 50, 25, 255));
    particle.update((0, 0), 500_000, &mut snapshot, &mut rng);
    assert!(particle.get_required_actions().contains(&ParticleAction::KillParticle { position: (0, 0) }));
    assert_eq!(particle.get_color(), Color::rgba(0, 0, 0, 255));
}

#[test]
fn motion_keeps_the_particles() {
    let mut grid = Grid::new(50, 50, 5);
    let mut rng = seeded_rng(9);
    for x in 0..10 {
        grid.set((x, x % 3), Particle::new_sand((x, x % 3), &mut rng));
        grid.set((x, 5 + x % 2), Particle::new_water((x, 5 + x % 2), &mut rng));
    }
    for _ in 0..30 {
        grid.update(FRAME);
        assert_eq!(count(&grid, SAND_ID), 10);
        assert_eq!(count(&grid, WATER_ID), 10);
        assert_eq!(count(&grid, EMPTY_ID), 80);
    }
}

#[test]
fn a_particle_moves_at_most_once_per_sweep() {
    for seed in 0..20 {
        let mut grid = Grid::new(25, 5, seed);
        let mut rng = seeded_rng(seed);
        grid.set((2, 0), Particle::new_water((2, 0), &mut rng));
        for _ in 0..3 {
            let before = (0..5).find(|&x| grid.get((x, 0)).get_id() == WATER_ID).unwrap();
            grid.update(FRAME);
            let after = (0..5).find(|&x| grid.get((x, 0)).get_id() == WATER_ID).unwrap();
            assert!((before - after).abs() <= 1);
            for x in 0..5 {
                assert_eq!(grid.get((x, 0)).generation, grid.generation);
            }
        }
    }
}

#[test]
fn writes_off_the_grid_change_nothing() {
    let mut grid = Grid::new(25, 25, 1);
    let mut rng = seeded_rng(1);
    let before = ids(&grid);
    for p in [(-1, 0), (0, -1), (5, 0), (0, 5), (i32::MAX, i32::MIN), (i32::MIN, 3)] {
        grid.set(p, Particle::new_sand(p, &mut rng));
    }
    let brush = BrushSettings::new(3, 1_000_000, BrushType::Circle, Species::Sand);
    grid.set_circle((100, 100), &brush);
    grid.set_circle((-4, 2), &brush);
    grid.set_circle((i32::MAX, i32::MAX), &brush);
    grid.set_circle((i32::MIN, i32::MIN), &BrushSettings::new(i32::MAX, 0, BrushType::Circle, Species::Sand));
    assert_eq!(ids(&grid), before);
    assert!(grid.draw().is_empty());
}

#[test]
fn a_brush_never_paints_over_matter() {
    let mut grid = Grid::new(25, 25, 2);
    let mut rng = seeded_rng(2);
    grid.set((2, 2), Particle::new_wood((2, 2), &mut rng));
    grid.set((3, 2), Particle::new_water((3, 2), &mut rng));
    grid.set_circle((2, 2), &BrushSettings::new(1, 1_000_000, BrushType::Circle, Species::Sand));
    assert_eq!(grid.get((2, 2)).get_id(), WOOD_ID);
    assert_eq!(grid.get((3, 2)).get_id(), WATER_ID);
    assert_eq!(grid.get((1, 2)).get_id(), SAND_ID);
    assert_eq!(grid.get((2, 1)).get_id(), SAND_ID);
    assert_eq!(grid.get((2, 3)).get_id(), SAND_ID);
    assert_eq!(grid.get((1, 1)).get_id(), EMPTY_ID);
    assert_eq!(count(&grid, SAND_ID), 3);
}

#[test]
fn an_empty_brush_clears_matter() {
    let mut grid = Grid::new(25, 25, 2);
    let mut rng = seeded_rng(2);
    for x in 0..5 {
        for y in 0..5 {
            grid.set((x, y), Particle::new_wood((x, y), &mut rng));
        }
    }
    grid.set_circle((2, 2), &BrushSettings::new(1, 1_000_000, BrushType::Circle, Species::Empty));
    assert_eq!(count(&grid, EMPTY_ID), 5);
    assert_eq!(grid.get((2, 2)).get_id(), EMPTY_ID);
    assert_eq!(grid.get((1, 1)).get_id(), WOOD_ID);
}

#[test]
fn a_brush_with_no_chance_paints_nothing() {
    let mut grid = Grid::new(25, 25, 4);
    grid.set_circle((2, 2), &BrushSettings::new(2, 0, BrushType::Circle, Species::Sand));
    assert_eq!(count(&grid, EMPTY_ID), 25);
}

#[test]
fn drawing_twice_hands_out_nothing_the_second_time() {
    let mut grid = Grid::new(25, 25, 3);
    let mut rng = seeded_rng(3);
    grid.set((1, 3), Particle::new_sand((1, 3), &mut rng));
    grid.set((4, 0), Particle::new_empty((4, 0)));
    let first = grid.draw();
    assert_eq!(first.len(), 2);
    assert_eq!(first[0].0, (4, 0));
    assert_eq!(first[0].1, Color::rgba(0, 0, 0, 255));
    assert_eq!(first[1].0, (1, 3));
    assert!(grid.draw().is_empty());
}

#[test]
fn clear_empties_and_marks_every_cell() {
    let mut grid = Grid::new(25, 10, 3);
    let mut rng = seeded_rng(3);
    grid.set((1, 1), Particle::new_sand((1, 1), &mut rng));
    grid.clear();
    assert_eq!(count(&grid, EMPTY_ID), 10);
    assert_eq!(grid.draw().len(), 10);
}

#[test]
fn grid_size_follows_the_window() {
    let grid = Grid::new(800, 603, 0);
    assert_eq!((grid.width, grid.height), (160, 120));
    assert_eq!(grid.cells.len(), 160 * 120);
    let none = Grid::new(-10, 40, 0);
    assert_eq!((none.width, none.height), (0, 8));
    assert_eq!(none.cells.len(), 0);
}

#[test]
fn swap_exchanges_particles_unless_both_are_empty() {
    let mut grid = Grid::new(25, 25, 3);
    let mut rng = seeded_rng(3);
    grid.swap((0, 0), (1, 1));
    assert!(grid.draw().is_empty());
    grid.set((0, 0), Particle::new_sand((0, 0), &mut rng));
    grid.draw();
    grid.swap((0, 0), (4, 4));
    assert_eq!(grid.get((4, 4)).get_id(), SAND_ID);
    assert!(grid.is_empty((0, 0)));
    assert_eq!(grid.draw().len(), 2);
}

#[test]
fn kill_and_spawn_requests() {
    let mut grid = Grid::new(25, 25, 3);
    let mut rng = seeded_rng(3);
    grid.set((1, 1), Particle::new_wood((1, 1), &mut rng));
    grid.apply_action(ParticleAction::SpawnParticle { species: Species::Sand, position: (1, 1) });
    assert_eq!(grid.get((1, 1)).get_id(), WOOD_ID);
    grid.apply_action(ParticleAction::KillParticle { position: (1, 1) });
    assert_eq!(grid.get((1, 1)).get_id(), EMPTY_ID);
    grid.apply_action(ParticleAction::SpawnParticle { species: Species::Water, position: (1, 1) });
    assert_eq!(grid.get((1, 1)).get_id(), WATER_ID);
    grid.apply_action(ParticleAction::KillParticle { position: (9, 9) });
    assert_eq!(count(&grid, EMPTY_ID), 24);
}

#[test]
fn fire_dies_and_mostly_leaves_smoke() {
    let mut grid = Grid::new(50, 50, 8);
    let mut rng = seeded_rng(8);
    grid.set((5, 9), Particle::new_fire((5, 9), &mut rng));
    for _ in 0..200 {
        grid.update(FRAME);
    }
    assert_eq!(count(&grid, FIRE_ID), 0);
}

#[test]
fn smoke_rises_and_vanishes() {
    let mut grid = Grid::new(50, 50, 8);
    let mut rng = seeded_rng(8);
    grid.set((5, 9), Particle::new_smoke((5, 9), &mut rng));
    for _ in 0..60 {
        grid.update(FRAME);
    }
    let row = (0..10).find(|&y| (0..10).any(|x| grid.get((x, y)).get_id() == SMOKE_ID)).unwrap();
    assert!(row < 9);
    for _ in 0..500 {
        grid.update(FRAME);
    }
    assert_eq!(count(&grid, SMOKE_ID), 0);
}

#[test]
fn color_interpolation_values() {
    let a = Color::rgba(10, 200, 0, 255);
    let b = Color::rgba(0, 100, 255, 255);
    assert_eq!(color_interpolation(a, b, 0, 3), a);
    assert_eq!(color_interpolation(a, b, 3, 3), b);
    assert_eq!(color_interpolation(a, b, 1, 3), Color::rgba(6, 166, 85, 255));
    assert_eq!(color_interpolation(a, b, 1, 2), Color::rgba(5, 150, 127, 255));
}

#[test]
fn shading_clamps_each_channel() {
    let c = Color::rgba(250, 5, 100, 7);
    assert_eq!(shade_color(c, 10), Color::rgba(255, 15, 110, 7));
    assert_eq!(shade_color(c, -10), Color::rgba(240, 0, 90, 7));
    assert_eq!(shade_color(c, 0), c);
}

#[test]
fn random_draws_stay_in_range_and_follow_the_seed() {
    let mut a = seeded_rng(42);
    let mut b = seeded_rng(42);
    let mut seen = [false; 10];
    for _ in 0..500 {
        let x = below(&mut a, 10);
        assert!(x < 10);
        assert_eq!(x, below(&mut b, 10));
        seen[x as usize] = true;
    }
    assert!(seen.iter().all(|&s| s));
}

#[test]
fn behavior_flags_are_the_union_of_ids() {
    let mut rng = seeded_rng(1);
    assert_eq!(Particle::new_empty((0, 0)).get_behaviors_ids(), AIR_LIKE_ID);
    let fire = Particle::new_fire((0, 0), &mut rng);
    assert_eq!(fire.get_behaviors_ids(), 8 | 16 | 64 | 128);
    let smoke = Particle::new_smoke((0, 0), &mut rng);
    assert_eq!(smoke.get_behaviors_ids(), 2 | 4 | 8);
    assert_eq!(Particle::new_water((3, 4), &mut rng).get_position(), (3, 4));
}

#[test]
fn has_behavior_is_false_off_the_grid() {
    let mut s = empty_snapshot(3, 3);
    s.flags[4] = IGNITER_ID;
    assert!(has_behavior((1, 1), &s, IGNITER_ID));
    assert!(!has_behavior((1, 1), &s, AIR_LIKE_ID));
    assert!(has_behavior((0, 0), &s, AIR_LIKE_ID));
    assert!(!has_behavior((-1, 0), &s, AIR_LIKE_ID));
    assert!(!has_behavior((3, 0), &s, AIR_LIKE_ID));
}

#[test]
fn empty_or_airlike_cells() {
    let mut s = empty_snapshot(3, 3);
    s.ids[1] = SAND_ID;
    s.flags[1] = 2;
    s.ids[2] = SMOKE_ID;
    assert!(SidewaysMotionFallback::is_empty_or_airlike((0, 0), &s));
    assert!(!SidewaysMotionFallback::is_empty_or_airlike((1, 0), &s));
    assert!(SidewaysMotionFallback::is_empty_or_airlike((2, 0), &s));
    assert!(!SidewaysMotionFallback::is_empty_or_airlike((0, 3), &s));
}

#[test]
fn landing_prefers_straight_below_then_the_chosen_side() {
    let mut s = empty_snapshot(3, 2);
    assert_eq!(MoveDown::find_empty_cell(1, 1, &s, false, true), Some(0));
    s.ids[4] = SAND_ID;
    s.flags[4] = 2;
    assert_eq!(MoveDown::find_empty_cell(1, 1, &s, false, true), Some(1));
    assert_eq!(MoveDown::find_empty_cell(1, 1, &s, false, false), Some(-1));
    s.ids[5] = SAND_ID;
    s.flags[5] = 2;
    assert_eq!(MoveDown::find_empty_cell(1, 1, &s, false, true), Some(-1));
    s.ids[3] = SMOKE_ID;
    assert_eq!(MoveDown::find_empty_cell(1, 1, &s, false, true), Some(-1));
    assert_eq!(MoveDown::find_empty_cell(1, 1, &s, true, true), None);
}

#[test]
fn move_down_step_moves_and_stops() {
    let mut s = empty_snapshot(3, 3);
    s.ids[1] = SAND_ID;
    s.flags[1] = 2;
    let mut state = ParticleState { color: Color::rgba(1, 2, 3, 255), position: (1, 0), particle_id: SAND_ID, behaviors_ids: 2 };
    let mut m = MoveDown { acceleration: 2_000_000, max_velocity: 4_000_000, velocity: 0, sub_row: 0 };
    let r = m.step(&mut state, FRAME, &mut s, true);
    assert_eq!(r, vec![ParticleAction::SetPosition { position: (1, 1) }]);
    assert_eq!(state.position, (1, 1));
    assert_eq!(m.velocity, 33_334);
    assert_eq!(m.sub_row, 555);
    assert_eq!((s.ids[1], s.ids[4]), (EMPTY_ID, SAND_ID));
    assert_eq!((s.flags[1], s.flags[4]), (AIR_LIKE_ID, 2));
    let mut slow = MoveDown { acceleration: 1_000, max_velocity: 10, velocity: 5, sub_row: 1_000 };
    assert!(slow.step(&mut state, FRAME, &mut s, true).is_empty());
    assert_eq!(slow.velocity, 10);
    assert_eq!(slow.sub_row, 1_000);
    let mut bottom = MoveDown { acceleration: 0, max_velocity: 100_000, velocity: 100_000, sub_row: 1_000 };
    assert!(bottom.step(&mut state, 1_000_000, &mut s, true).is_empty());
    assert_eq!((bottom.velocity, bottom.sub_row), (0, 1_000));
}

#[test]
fn sideways_fallback_slides_only_when_blocked() {
    let mut s = empty_snapshot(3, 2);
    let mut state = ParticleState { color: Color::rgba(1, 2, 3, 255), position: (1, 0), particle_id: WATER_ID, behaviors_ids: 2 | 256 };
    s.ids[1] = WATER_ID;
    s.flags[1] = 2 | 256;
    let mut b = SidewaysMotionFallback { last_position: (1, 0) };
    assert!(b.step(&mut state, &mut s, true).is_empty());
    for i in 3..6 {
        s.ids[i] = SAND_ID;
        s.flags[i] = 2;
    }
    let r = b.step(&mut state, &mut s, true);
    assert_eq!(r, vec![ParticleAction::SetPosition { position: (2, 0) }]);
    assert_eq!(state.position, (2, 0));
    assert_eq!(b.last_position, (2, 0));
    assert_eq!((s.ids[1], s.ids[2]), (EMPTY_ID, WATER_ID));
}

#[test]
fn flammable_chance_rises_with_igniters_and_falls_without() {
    let mut s = empty_snapshot(3, 3);
    let state = ParticleState { color: Color::rgba(1, 2, 3, 255), position: (1, 1), particle_id: WOOD_ID, behaviors_ids: 32 };
    s.flags[0] = IGNITER_ID;
    s.flags[8] = IGNITER_ID;
    s.flags[4] = IGNITER_ID;
    let mut f = match Flammable::boxed(800_000, 1) {
        Behavior::Flammable(f) => f,
        _ => unreachable!(),
    };
    assert_eq!(f.num_cell_in_radius, 8);
    f.accumulate(&state, 1_000_000, &s);
    assert_eq!(f.current_ignition_probability, 200_000);
    s.flags[0] = 0;
    s.flags[8] = 0;
    f.accumulate(&state, 100_000, &s);
    assert_eq!(f.current_ignition_probability, 120_000);
    f.accumulate(&state, 1_000_000, &s);
    assert_eq!(f.current_ignition_probability, 0);
}

#[test]
fn flammable_radius_is_clamped() {
    match Flammable::boxed(1, 0) {
        Behavior::Flammable(f) => assert_eq!((f.ignition_radius, f.num_cell_in_radius), (1, 8)),
        _ => unreachable!(),
    }
    match Flammable::boxed(1, 2) {
        Behavior::Flammable(f) => assert_eq!(f.num_cell_in_radius, 24),
        _ => unreachable!(),
    }
    match Flammable::boxed(1, 2000) {
        Behavior::Flammable(f) => assert_eq!((f.ignition_radius, f.num_cell_in_radius), (2000, 4001 * 4001 - 1)),
        _ => unreachable!(),
    }
}

#[test]
fn crushed_particles_die() {
    let mut rng = seeded_rng(5);
    let mut s = empty_snapshot(2, 2);
    let state = ParticleState { color: Color::rgba(1, 2, 3, 255), position: (0, 1), particle_id: FIRE_ID, behaviors_ids: 64 };
    let d = DieWhenCrushed { crushing_probability: 1_000_000 };
    assert!(d.update(&state, &s, &mut rng).is_empty());
    s.ids[0] = SAND_ID;
    s.flags[0] = 2;
    assert_eq!(d.update(&state, &s, &mut rng), vec![ParticleAction::KillParticle { position: (0, 1) }]);
    s.ids[0] = FIRE_ID;
    assert!(d.update(&state, &s, &mut rng).is_empty());
}

#[test]
fn current_motion_only_trades_with_like_neighbours() {
    let mut rng = seeded_rng(5);
    let mut s = empty_snapshot(3, 1);
    let state = ParticleState { color: Color::rgba(1, 2, 3, 255), position: (1, 0), particle_id: WATER_ID, behaviors_ids: 512 };
    s.ids = vec![WATER_ID, WATER_ID, SAND_ID];
    s.flags = vec![512, 512, 512];
    let c = CurrentMotion { swap_probability_per_sec: 1_000_000 };
    let mut moved_left = false;
    for _ in 0..50 {
        let r = c.update(&state, 1_000_000, &s, &mut rng);
        assert!(r.is_empty() || r == vec![ParticleAction::SetPosition { position: (0, 0) }]);
        moved_left |= !r.is_empty();
    }
    assert!(moved_left);
    let still = CurrentMotion { swap_probability_per_sec: 0 };
    assert!(still.update(&state, 1_000_000, &s, &mut rng).is_empty());
    for _ in 0..50 {
        assert!(c.update(&state, 0, &s, &mut rng).is_empty());
    }
    assert_eq!(c.step(&state, 1_000_000, &s, true, 999_999), vec![ParticleAction::SetPosition { position: (0, 0) }]);
    assert!(c.step(&state, 1_000_000, &s, false, 0).is_empty());
    assert!(CurrentMotion { swap_probability_per_sec: 500_000 }.step(&state, 1_000_000, &s, true, 500_000).is_empty());
}

#[test]
fn animated_color_cycles_through_its_palette() {
    let palette = vec![Color::rgba(1, 0, 0, 255), Color::rgba(2, 0, 0, 255), Color::rgba(3, 0, 0, 255)];
    let mut a = match AnimatedColor::boxed(palette, 2_000) {
        Behavior::AnimatedColor(a) => a,
        _ => unreachable!(),
    };
    assert_eq!(a.update(100_000), vec![ParticleAction::SetColor { color: Color::rgba(1, 0, 0, 255) }]);
    assert!(a.update(100_000).is_empty());
    assert_eq!(a.update(400_000), vec![ParticleAction::SetColor { color: Color::rgba(2, 0, 0, 255) }]);
    assert_eq!(a.update(500_000), vec![ParticleAction::SetColor { color: Color::rgba(3, 0, 0, 255) }]);
    assert_eq!(a.update(500_000), vec![ParticleAction::SetColor { color: Color::rgba(1, 0, 0, 255) }]);
    assert_eq!(a.elapsed_time, 1_600_000);
    assert_eq!(a.update(1_000_000), vec![ParticleAction::SetColor { color: Color::rgba(3, 0, 0, 255) }]);
    let mut late = match AnimatedColor::boxed(vec![Color::rgba(1, 0, 0, 255), Color::rgba(2, 0, 0, 255)], 2_000) {
        Behavior::AnimatedColor(a) => a,
        _ => unreachable!(),
    };
    assert_eq!(late.update(600_000), vec![ParticleAction::SetColor { color: Color::rgba(2, 0, 0, 255) }]);
    let mut none = AnimatedColor { colors: vec![], frequency: 5, elapsed_time: 0, last_index: 1 };
    assert!(none.update(1_000_000).is_empty());
}

#[test]
fn fire_leaves_smoke_near_it() {
    let mut rng = seeded_rng(6);
    let s = empty_snapshot(3, 3);
    let state = ParticleState { color: Color::rgba(100, 100, 100, 255), position: (0, 0), particle_id: FIRE_ID, behaviors_ids: 8 };
    let mut l = match LimitedLife::boxed_with_spawn(1, 1_000_000, Species::Smoke, (1, 1)) {
        Behavior::LimitedLife(l) => l,
        _ => unreachable!(),
    };
    let r = l.update(&state, 5, &s, &mut rng);
    assert_eq!(r.len(), 3);
    assert_eq!(r[0], ParticleAction::SetColor { color: Color::rgba(0, 0, 0, 255) });
    assert_eq!(r[1], ParticleAction::KillParticle { position: (0, 0) });
    match r[2] {
        ParticleAction::SpawnParticle { species, position } => {
            assert_eq!(species, Species::Smoke);
            assert!(position.0 >= 0 && position.0 <= 1 && position.1 >= 0 && position.1 <= 1);
        },
        _ => panic!("expected a spawn"),
    }
}

#[test]
fn default_brushes() {
    let map = make_default_brush_settings_map();
    assert_eq!(map.len(), 6);
    assert_eq!(map[0], (SAND_ID, BrushSettings::new(3, 350_000, BrushType::Circle, Species::Sand)));
    assert_eq!(map[2].1.species, Species::Empty);
    assert_eq!(map[2].1.probability, 1_000_000);
}

#[test]
fn draws_decide_burning_crushing_and_spawning() {
    let mut s = empty_snapshot(3, 3);
    let state = ParticleState { color: Color::rgba(100, 100, 100, 255), position: (1, 1), particle_id: FIRE_ID, behaviors_ids: 64 };
    s.ids[1] = SAND_ID;
    s.flags[1] = 2;
    let d = DieWhenCrushed { crushing_probability: 300_000 };
    assert_eq!(d.step(&state, &s, 299_999), vec![ParticleAction::KillParticle { position: (1, 1) }]);
    assert!(d.step(&state, &s, 300_000).is_empty());
    s.flags[0] = IGNITER_ID;
    let mut f = match Flammable::boxed(800_000, 1) {
        Behavior::Flammable(f) => f,
        _ => unreachable!(),
    };
    assert!(f.step(&state, 1_000_000, &s, 100_000).is_empty());
    assert_eq!(f.current_ignition_probability, 100_000);
    assert_eq!(f.step(&state, 1_000_000, &s, 199_999).len(), 2);
    let mut l = match LimitedLife::boxed_with_spawn(10, 400_000, Species::Smoke, (2, 2)) {
        Behavior::LimitedLife(l) => l,
        _ => unreachable!(),
    };
    let r = l.step(&state, 10, &s, 399_999, 2, -2);
    assert_eq!(r[2], ParticleAction::SpawnParticle { species: Species::Smoke, position: (2, 0) });
    let mut l2 = match LimitedLife::boxed_with_spawn(10, 400_000, Species::Smoke, (2, 2)) {
        Behavior::LimitedLife(l) => l,
        _ => unreachable!(),
    };
    assert_eq!(l2.step(&state, 10, &s, 400_000, 0, 0).len(), 2);
}

#[test]
fn new_grid_cells_know_their_place() {
    let grid = Grid::new(15, 10, 0);
    assert_eq!(grid.get((2, 1)).get_position(), (2, 1));
    assert_eq!(grid.get((0, 1)).get_behaviors_ids(), AIR_LIKE_ID);
}
