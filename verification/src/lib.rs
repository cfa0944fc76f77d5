//! A verified toolkit built around a decoder and simulator for a subset of the
//! 8086 instruction set (MOV, ADD, SUB, CMP and the conditional jump family),
//! together with a small hand-written JSON parser and helpers for estimating a
//! CPU timer frequency from raw counter readings.

pub mod decode;
pub mod simulate;
pub mod json;
pub mod timer;
