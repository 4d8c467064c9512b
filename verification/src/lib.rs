//! Core of a tiling window manager for X11: a pure layout engine, a
//! per-workspace window model with a focus cursor, event reducers that
//! translate X events into declarative effects, and builders for the
//! EWMH root-window properties.
//!
//! Everything here is pure: no connection, no I/O. A thin adapter owns
//! the X connection, feeds plain values in, and performs the returned
//! effects.

pub mod effect;
pub mod ewmh_manager;
pub mod keys;
pub mod laws;
pub mod messages;
pub mod layout;
pub mod state;
pub mod workspace;
