//! A minimal symmetric data-obscuring transform built on top of an opaque
//! 64-bit block cipher primitive (DES, supplied by an outside crate).
//!
//! The library contributes three things on top of that primitive:
//! a strict hexadecimal codec for bit sequences, fixed-width 64-bit value
//! types (`Key` and `Block`), and a keystream mode engine that derives a
//! single keystream block from one primitive invocation and combines it
//! with arbitrary-length input by bitwise exclusive-or, chunk by chunk.
//!
//! The keystream block is deliberately reused across all chunks of a
//! message; this is a known confidentiality weakness of the mode, kept
//! as the defining behaviour of the engine rather than replaced by a
//! standard chaining mode.

pub mod engine;
pub mod error;
pub mod form;
pub mod hex;
pub mod values;
