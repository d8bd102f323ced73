//! The RINEX side of the converter: the system and file-type codes that
//! headers carry, the quality and lock flags of observations, the
//! observations that MSM cells yield and the order of their epochs, the
//! observation types of each system and the lines of version 2 and 3
//! headers that list them, and which output files a conversion writes.

pub mod header;
pub mod nav;
pub mod obs;
pub mod obs_types;
pub mod plan;
pub mod output;
