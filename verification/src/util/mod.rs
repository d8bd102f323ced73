//! Bit-level and text helpers, and gzip compression of output files.

pub mod bits;
pub mod text;
pub mod gzip;
