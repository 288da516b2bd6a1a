//! A flow-controlled command streamer: normalizes raw command lines and
//! paces their transmission to a serial-connected device according to the
//! device's acknowledgments and asynchronous pause/resume/cancel signals.
//!
//! - [`text`] strips comments and whitespace from raw lines and searches
//!   for the protocol's markers, byte by byte.
//! - [`protocol`] fixes the vocabulary: markers, tokens, synthetic
//!   commands, status lines and the line terminator.
//! - [`controller`] is the state machine proper, one decision per device
//!   line, free of any input or output.
//! - [`model`] states what a whole session transmits and outputs, runs
//!   one in isolation, and proves the laws the machine obeys.

pub mod controller;
pub mod model;
pub mod protocol;
pub mod text;
