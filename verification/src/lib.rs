//! Length-delimited framing of a byte stream.
//!
//! A frame on the wire is a two-byte big-endian length followed by that many
//! payload bytes. [`wire`] holds the mathematical model of the format and the
//! decision of whether the front of a buffer holds a whole frame, [`buffer`]
//! the contracts of the shared byte buffer that inbound bytes accumulate in,
//! [`codec`] the codec itself, and [`laws`] theorems about the format that
//! follow from the model.
#![allow(deprecated)]

pub mod buffer;
pub mod codec;
pub mod laws;
pub mod wire;
