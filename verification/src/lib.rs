//! The simulation core of a two-player tank duel: entity transforms, turret
//! tracking, projectiles, collision and the per-frame session logic, all in
//! deterministic fixed-point arithmetic.
pub mod fixed;
pub mod trig;
pub mod transform;
pub mod turret;
pub mod shape;
pub mod object;
pub mod theorems;
pub mod game;
