//! A verified core for a toroidal flocking simulation.
//!
//! A population of ships moves on a wrap-around rectangular arena. A few
//! ships are player-driven; the rest steer by flocking rules (alignment,
//! cohesion, separation). Each simulation tick runs three passes in a fixed
//! order: input mapping, steering, and integration with wraparound.
//!
//! All quantities are fixed-point integers: linear values carry `fixed::UNIT`
//! sub-units per arena unit, and headings carry `fixed::FULL_TURN` angle
//! units per full circle.

pub mod ai_system;
pub mod components;
pub mod config;
pub mod fixed;
pub mod input_system;
pub mod move_system;
pub mod simulation;
pub mod torus;
pub mod trig;
