//! A verified linear state-estimation pipeline: a fixed-point Kalman filter
//! with its noise-injection sensor model, a FIFO result stream, and the
//! estimation loop that ties them together tick by tick.
//!
//! All quantities are fixed-point numbers: an `i64` holding the real value
//! multiplied by [`fx::SCALE`]. Working in scaled integers keeps every
//! operation exact enough to state and prove contracts about, while the
//! surrounding application converts to and from machine floats at its edges.

use vstd::prelude::*;

pub mod fx;
pub mod matrix;
pub mod filter;
pub mod kalman;
pub mod noise;
pub mod stream;
pub mod estimation;

verus! {

} // verus!
