//! A verified core for a self-driving fractal zoom animation.
//!
//! The library models a viewport onto the complex plane in fixed-point
//! arithmetic: the mapping between screen pixels and plane coordinates,
//! a render cache that is invalidated on every view mutation, a
//! brightness-based zoom-target selector with a random tie-break, and
//! the zoom state machine that drives the animation.

pub mod coords;
pub mod frame;
pub mod select;
pub mod view;
