//! Simple celestial simulation: bodies, their orbits as far as whole numbers
//! describe them, and their agreement with a calendar.

pub mod color;
pub mod orbit;
pub mod planet;

pub use color::Color;
pub use orbit::{Orbit, Phase};
pub use planet::{CelestialBody, PlanetId};
