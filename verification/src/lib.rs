//! The deciding core of a CPU ray tracer for a static triangle scene.
//!
//! Floating-point numbers never enter this crate as such: every real quantity
//! is an IEEE-754 binary32 value carried by its bit pattern (see [`scalar`]).
//! The arithmetic that produces those quantities belongs to the caller; what
//! is decided from them (which hits count, which one is closest, whether a
//! point lies in shadow) and how a frame is enumerated, stored and
//! serialized is done, and proved, here.

pub mod geometry;
pub mod light;
pub mod scalar;
pub mod scene;
pub mod world;
