//! A feedback delay-line audio effect, verified with Verus.
//!
//! The core is a fixed-capacity circular sample buffer with a write cursor
//! and a runtime-adjustable active window, plus a store of mixing parameters
//! (amplitude, delay time, wet level, dry level, feedback). Samples and
//! parameter values are fixed-point integers: one unit of signal or of a
//! normalized control value is `fixed::SCALE`. The host-facing plugin glue,
//! which works in floating point, lives outside the verified library and
//! converts at the boundary.

pub mod engine;
pub mod fixed;
pub mod params;

pub use fixed::SCALE;
