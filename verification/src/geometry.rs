//! Rays against triangles: which solutions count as hits, and which hit is
//! the closest.

pub mod intersection;
