//! Timing of mouse clicks: a tracker that turns click times into the list of
//! intervals of the current click sequence, and starts a new sequence when a
//! click comes too late.

pub mod clock;
pub mod model;
pub mod state;
pub mod display;
pub mod event;
pub mod config;
