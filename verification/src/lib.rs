//! A verified take on a small cookbook of standard-library patterns.
//!
//! The centrepiece is `mutex`: a hand-rolled mutual-exclusion primitive with a
//! guard object, together with `protocol` and `counter`, transition-system
//! models of the compare-and-swap race concurrent acquirers run on its flag,
//! which prove mutual exclusion, visibility and lossless counting over
//! arbitrary interleavings. The remaining modules are small, self-contained
//! recipes — builders, conversions, iteration, text and wire-format parsing —
//! each with a full contract.

pub mod builder;
pub mod connections;
pub mod convert;
pub mod counter;
pub mod dates;
pub mod defaults;
pub mod geometry;
pub mod iterators;
pub mod mutex;
pub mod names;
pub mod news;
pub mod numbers;
pub mod parsing;
pub mod protocol;
pub mod shared;
pub mod traverse;
pub mod tree;
pub mod wire;
