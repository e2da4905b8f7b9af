//! A fixed-timestep simulation of a missile-defence arcade game.
//!
//! The world is modelled in integer fixed-point units: one screen pixel is
//! [`geometry::UNITS_PER_PIXEL`] world units, and one tick is 1/60 of a
//! second. Headings are measured in centidegrees from the vertical.
pub mod geometry;
pub mod rng;
pub mod actors;
pub mod passes;
pub mod world;
pub mod clock;
pub mod laws;
