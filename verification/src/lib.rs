//! The decision core of a small path tracer.
//!
//! The tracer's numeric work (vector geometry, colour arithmetic, random
//! sampling) is done by the caller. What is decided here works on whole
//! numbers: distances along a ray are carried as signed 64-bit keys whose
//! order is the order of the distances they stand for, and colour channels
//! as whole levels on the byte scale.

pub mod camera;
pub mod canvas;
pub mod distance;
pub mod hitable;
pub mod hitable_list;
pub mod interval;
pub mod trace;
