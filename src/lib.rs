//! Verified integer core of a Monte Carlo sphere renderer: the plain-text
//! pixel image it emits and the order in which pixels are produced, the
//! choice of the nearest hit among a scene's objects, and the depth-bounded
//! control of the path integrator.

pub mod image;
pub mod path;
pub mod ppm;
pub mod scene;
