//! A small two-dimensional particle sandbox on integer fixed-point numbers.
//!
//! Lengths are counted in units of one thousandth of a world length and time
//! in ticks. Bodies are disks of constant areal density that collide
//! elastically with each other and with static axis-aligned walls, and may be
//! joined by breakable bonds. [`step::update_particles`] advances the whole
//! scene by one physics step; `conservation` and `laws` state and prove
//! what holds of it.
pub mod arith;
pub mod geometry;
pub mod element;
pub mod body;
pub mod contact;
pub mod solver;
pub mod bonds;
pub mod step;
pub mod conservation;
pub mod laws;
pub mod picking;
