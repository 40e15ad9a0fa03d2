//! Frame-stepped control core for a first-person character.
//!
//! The core converts raw pointer motion and discrete key state into a
//! camera orientation and a ground-relative displacement request, once per
//! simulation frame. All quantities are fixed-point integers in micro-units
//! (one unit of world space, or one radian, equals `vec3::SCALE` ticks);
//! the host application converts to and from its floating-point types at
//! the boundary.

pub mod follow;
pub mod orientation;
pub mod player;
pub mod vec3;
