//! A biquad (second-order IIR) audio filter engine.
//!
//! The engine derives nothing from the machine's floating-point unit itself:
//! every sample, parameter and coefficient is carried as the 32-bit IEEE-754
//! bit pattern of the value (`u32`).  The crate owns everything that can be
//! stated exactly over those words: parsing and validating configuration,
//! merging partial settings updates, replacing coefficient sets atomically,
//! and the per-channel streaming recursion that orders every history update.
//! The single numeric step `y[n] = b0*x[n] + b1*x[n-1] + b2*x[n-2] -
//! a1*y[n-1] - a2*y[n-2]` is supplied by the caller as a step function; the
//! contracts pin which operands reach that step, in which order, and what
//! becomes of its result.

pub mod config;
pub mod engine;
