//! Acquisition and normalization of environmental sensor measurements.
//!
//! The crate discovers thermal-probe devices from a directory listing,
//! parses their raw textual reports behind an integrity gate, models the
//! readings of the supported sensor families as one tagged union, wraps a
//! reading with a fresh identifier and a capture timestamp, and builds and
//! decodes the bodies of the remote commit protocol.

pub mod decimal;
pub mod device;
pub mod herodot;
pub mod ident;
pub mod json;
pub mod reading;
pub mod record;
pub mod sample;
pub mod text;
pub mod timestamp;
