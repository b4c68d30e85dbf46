//! Parsing and decoding of DBC-described CAN signals.
//!
//! The crate has three parts.  The grammar in [`parser`] turns DBC source
//! text into typed [`dbc::Entry`] records.  The merge engine in [`pgn`] folds
//! those records into per-message and per-signal definitions.  The bit-field
//! decoder in [`decode`] extracts a signal's raw value from a CAN frame's
//! bytes.  Every function is specified and verified; file loading, character
//! decoding and floating-point scaling live outside the crate.

pub mod dbc;
pub mod decimal;
pub mod decode;
pub mod parser;
pub mod pgn;
pub mod scan;
