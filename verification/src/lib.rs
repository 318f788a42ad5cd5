//! Measurement kernel of a single-qubit simulator.
//!
//! Amplitudes and probabilities are IEEE-754 binary64 numbers. This library
//! handles them by their bit patterns only: [`binary64`] gives a bit pattern
//! its exact mathematical value and decides the order of two such values;
//! [`measurement`] draws the uniform sample, applies the Born rule and names
//! the basis state that the qubit collapses to.

pub mod binary64;
pub mod measurement;
