//! Deterministic smoothing of freehand input strokes.
//!
//! A stroke is an ordered sequence of `(x, y, pressure)` samples; smoothing is
//! Chaikin corner cutting, applied a fixed number of rounds, followed by
//! serialization into a little-endian wire buffer whose ownership is handed to
//! the caller as a raw (address, size) pair.
//!
//! Every scalar is carried here as the 32 bits of its IEEE-754 single-precision
//! value: the library decides which pairs of scalars are blended and where the
//! results go, while the numeric blend itself — the one step this library does
//! not perform — is done by the embedding layer and handed back, so all the
//! structural guarantees (validation, growth, endpoint preservation, wire
//! layout, buffer bookkeeping) are proved for every value the blend may take.
use vstd::prelude::*;

pub mod chaikin;
pub mod ledger;
pub mod validate;
pub mod wire;

verus! {

/// Number of corner-cutting rounds the smoothing entry point applies.
pub const SMOOTHING_ITERATIONS: usize = 2;

} // verus!
