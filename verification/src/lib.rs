//! Civic engagement streak library.
//!
//! A per-user streak counter driven purely by elapsed wall-clock time
//! between recorded engagement events: an event accepted within a bounded
//! recurring window continues the streak, missing the window resets it,
//! and crossing a fixed milestone threshold is reported to the caller.
//! The host platform supplies the trusted clock reading and caller
//! identity; every decision taken on them is made, and verified, here.

pub mod engine;
pub mod laws;
pub mod milestones;
pub mod store;
