//! Satellite systems as orbit models name them.

use vstd::prelude::*;

verus! {

/// The satellite systems whose ephemerides the orbit models take.
#[derive(Debug, Clone, Copy, PartialEq, Eq, Structural)]
pub enum SatSystem {
    GPS,
    GLONASS,
    Galileo,
    BeiDou,
    QZSS,
    SBAS,
    NavIC,
}

} // verus!
