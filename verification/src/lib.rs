//! Verified core of two small utilities: a Sieve-of-Eratosthenes prime
//! finder and the discrete skeleton of a linear-frequency-modulated
//! (chirp) pulse generator with amplitude windowing.
//!
//! All floating-point evaluation (the oscillator and the window formulas)
//! is left to the caller; this crate decides, and proves correct,
//! everything that is discrete: which primes survive the sieve, which
//! sample indices are tapered and with which window arguments, and which
//! components of a sample are forced to zero.

pub mod sieve;
pub mod waveform;
