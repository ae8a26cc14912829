//! Verified core of a DAB+ digital radio backend: bit-level error
//! correction, FIG and PAD parsing, the audio super frame decoder state
//! machine, the SDR device model and the small pure parts of the
//! streaming, casting and installer services.

pub mod dsp;
pub mod text;
pub mod services;
pub mod streaming;
pub mod system;
pub mod casting;
pub mod api;
