//! A small arcade game's rules: good things must be kept away from bad things
//! while the difficulty climbs. Lengths are in thousandths of a screen unit,
//! angles in millionths of a radian, difficulty levels in tenths, time in
//! milliseconds.
pub mod app_state;
pub mod game;
pub mod generic_ui;
pub mod laws;
