//! Navigation-message systems.

use vstd::prelude::*;

verus! {

/// The systems whose broadcast ephemerides a navigation file can hold.
#[derive(Debug, Clone, Copy, PartialEq, Eq, Structural)]
pub enum NavSystem {
    GPS,
    GLONASS,
    Galileo,
    BeiDou,
    QZSS,
    SBAS,
    IRNSS,
}

} // verus!
