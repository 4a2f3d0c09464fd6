//! A falling-sand cellular automaton: a grid of particles whose composable
//! behaviors make them fall, flow, burn, fade and spawn, one sweep per frame.
//!
//! All quantities are integers: times are in microseconds, chances in parts per
//! million (`random::CHANCE_ONE` is certainty), vertical positions in sub-cells
//! (`behaviors::move_down::SUBCELLS`, a thousand, to a cell), and frequencies in thousandths
//! of a hertz.

pub mod behaviors;
pub mod brush_settings;
pub mod color;
pub mod grid;
pub mod particle;
pub mod particle_action;
pub mod random;
pub mod snapshot;
