//! The view onto the scene: the canvas and the order in which it is walked.

pub mod camera;
