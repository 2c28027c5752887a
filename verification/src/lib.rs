//! Brick-breaker physics on exact integer arithmetic.
//!
//! Lengths are whole numbers of a fixed-point sub-unit and time is a whole
//! number of quanta, with [`UNIT`] sub-units to one world unit and [`UNIT`]
//! quanta to one second. A velocity is given in world units per second, so a
//! body moving at `v` for `dt` quanta travels exactly `v * dt` sub-units and
//! no rounding ever enters the simulation.

use vstd::prelude::*;

pub mod geometry;
pub mod motion;
pub mod scoreboard;
pub mod collision;
pub mod config;
pub mod paddle;
pub mod session;

verus! {

/// Sub-units per world unit, and quanta per second.
pub const UNIT: i64 = 6000;

} // verus!
