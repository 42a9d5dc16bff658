//! A multi-band audio equalizer engine built from second-order (biquad)
//! recursive filter sections.
//!
//! Samples and filter coefficients are IEEE-754 single-precision values,
//! carried everywhere in this crate as their raw 32-bit words. The engine
//! itself never computes on the numeric value of a sample: the host evaluates
//! the second-order recursion
//! `y_n = (b0*x_n + b1*x[0] + b2*x[1] - a1*y[0] - a2*y[1]) / a0`
//! with its own floating-point arithmetic and hands the resulting word to
//! [`filter::LinearFilter::filter`]. Everything the engine does decide —
//! how the delay history advances, what a bypassed section passes through,
//! how parameter updates affect state, in which order a chain of sections
//! runs, and how mismatched block lengths are truncated — is verified here.

pub mod chain;
pub mod filter;
