//! Decoder for binary telemetry capture files produced by a racing
//! simulator.
//!
//! A capture file starts with a fixed-size header that locates the other
//! regions of the file: a small metadata block, an embedded text block
//! describing the session, a table of variable descriptors (one per
//! telemetry channel), and a trailing region of fixed-length sample
//! records, one per simulation tick.
//!
//! The library decodes in-memory bytes only. Opening files, seeking, and
//! rendering floating-point values as text are left to callers; floats
//! travel through the library as their IEEE-754 bit patterns.

pub mod metric_headers;
pub mod session_info;
pub mod telemetry;
pub mod telemetry_header;
pub mod telemetry_metadata;
pub mod telemetry_sample;
pub mod text;
pub mod utils;
