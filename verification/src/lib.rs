//! A deterministic 2-D asteroid-field simulation: gravitational force
//! accumulation between bodies, Euler integration with toroidal screen wrap,
//! spring-damper surface deformation, elastic collision resolution with
//! overlap correction, projectile-driven fragmentation, and time-bounded
//! particle populations.
//!
//! All state is held in integer milli-units (one unit is 1/1000 of a pixel,
//! 1/1000 of a second, or 1/1000 of a radian), so every update step is exact
//! integer arithmetic.

pub mod collide;
pub mod config;
pub mod entities;
pub mod game;
pub mod laws;
pub mod num;
pub mod physics;
pub mod rng;
pub mod seqs;
pub mod trig;
