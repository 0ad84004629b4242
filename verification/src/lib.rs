//! Click-through overlay regions for a desktop window.
//!
//! The crate keeps a registry of named polygonal areas, expressed in
//! screen-space coordinates, and classifies a stream of raw mouse events
//! (press, release, move, wheel) into discrete gestures.  Hit-testing the
//! cursor against the registered polygons decides whether the host window
//! should accept or ignore pointer input.
//!
//! All geometry is carried out over exact integer arithmetic: physical
//! positions are device pixels, and normalized "viewport" positions are
//! rational fractions of the physical screen width.

pub mod error;
pub mod grab;
pub mod models;
pub mod polygon;
pub mod registry;
pub mod utils;
