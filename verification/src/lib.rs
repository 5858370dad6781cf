//! Deterministic decision core of a Nelson-Siegel family relative-value
//! curve fitter.
//!
//! The fitter splits into two layers. The numeric layer (weighted
//! least-squares solves, basis-function evaluation, information criteria)
//! works in floating point and lives with the caller. This crate is the
//! decision layer: every choice the fitter makes -- which model orders to
//! attempt, which grid candidate wins, how observations are re-weighted,
//! which fit is selected, how bonds are ranked -- is made here, over exact
//! integer encodings of the measurements, and carries a proved contract.
//!
//! Callers encode each floating-point measurement either as an
//! order-preserving key (for values that are only ever compared) or as a
//! fixed-point integer (for values that enter arithmetic), hand the encoded
//! values in, and map the returned indices back to their own records. This
//! makes the decisions exact and bit-reproducible regardless of thread
//! count or summation order in the numeric layer.

pub mod args;
pub mod candidate;
pub mod controls;
pub mod domain;
pub mod error;
pub mod grid;
pub mod plot;
pub mod rank;
pub mod robust;
pub mod selection;
pub mod text;
