//! The chaos game: a tracer jumps again and again a fixed part of the way
//! towards a vertex drawn at random, and the places where it lands draw a
//! fractal.
//!
//! All numbers are fixed-point scalars that count millionths (see `fixed`), so
//! that every result is exact and the same on every machine. `geometry` has
//! the points and the jump, `fractal` the vertices, the jump ratio and the
//! walk, `colour` the colours of the slots, `slots` ten fractals side by side
//! and the commands of a user, `controls` the keys and clicks that give the
//! commands, and `laws` what holds between these functions.

pub mod colour;
pub mod controls;
pub mod fixed;
pub mod fractal;
pub mod geometry;
pub mod laws;
mod random;
pub mod slots;

pub use crate::colour::{HSV, RGB};
pub use crate::controls::Controls;
pub use crate::fixed::{round_to, ONE};
pub use crate::fractal::Fractal;
pub use crate::geometry::Point;
pub use crate::slots::{slot_colour, Command, Slots};
