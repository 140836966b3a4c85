//! Incremental corner-cutting of a control polyline, animated between
//! subdivision levels.
//!
//! The library works on fixed-point coordinates: every scalar is an `i64`
//! counting multiples of `1 / fixed::FIXED_ONE`.  The animator in [`chaikin`]
//! refines an open polyline by corner cutting, interpolates between
//! neighbouring refinement levels, and cycles back to the original points
//! after a fixed number of levels.  The [`input`] module holds the verified
//! state machine behind the interactive editor; the host only polls the
//! window and hands plain values in.

pub mod fixed;
pub mod point;
pub mod chaikin;
pub mod input;
pub mod laws;
