//! Rules of a two-queen bee arena: reading the controls, steering queens and
//! their swarms, moving the bodies and finding their contacts, collecting
//! flowers, raising workers and keeping the score.
//!
//! Every quantity is an integer. Directions are counted in millionths of a
//! unit vector, lengths in thousandths of an arena unit, productions in
//! thousandths of a worker per second, and time in microseconds, so that
//! every rule is exact.

pub mod keys;
pub mod game_control;
pub mod vector;
pub mod sticks;
pub mod actions;
pub mod body;
pub mod movement;
pub mod collision;
pub mod integrator;
pub mod scoreboard;
pub mod bee_spawner;
pub mod rules;
pub mod bees;
pub mod audio;
pub mod menu;
