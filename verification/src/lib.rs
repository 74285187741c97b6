//! MozLog JSON log-record encoder.
//!
//! Converts structured log events (message, severity level, key-value
//! attributes, timestamp) into the MozLog JSON wire format — or its
//! Google-Cloud-Platform-compatible variant — and hands the encoded text to
//! an output sink. The envelope is produced in two passes: a first pass
//! writes the fixed envelope with a placeholder standing in for the nested
//! `Fields` object, a second pass writes the `Fields` content, and a textual
//! splice substitutes the placeholder with the second buffer.

pub mod drain;
pub mod json;
pub mod laws;
pub mod splice;
pub mod util;
pub mod value;
