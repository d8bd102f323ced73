//! The signals of each satellite system, and the signal sets that each
//! system's processor supports.

use vstd::prelude::*;

verus! {

/// GPS signals.
#[derive(Debug, Clone, Copy, PartialEq, Eq, Structural)]
pub enum GpsSignal {
    /// L1 C/A
    L1CA,
    /// L1 P(Y)
    L1P,
    /// L2 P(Y)
    L2P,
    /// L2C
    L2C,
    /// L5
    L5,
}

/// BeiDou signals.
#[derive(Debug, Clone, Copy, PartialEq, Eq, Structural)]
pub enum BeidouSignal {
    /// B1I (B1-2)
    B1I,
    /// B1C (B1-P)
    B1C,
    /// B2I (B2-2)
    B2I,
    /// B3I (B3-2)
    B3I,
}

/// Galileo signals.
#[derive(Debug, Clone, Copy, PartialEq, Eq, Structural)]
pub enum GalileoSignal {
    /// E1-B (I/NAV)
    E1B,
    /// E1-C
    E1C,
    /// E5a-I (F/NAV)
    E5aI,
    /// E5b-I (I/NAV)
    E5bI,
}

/// QZSS signals.
#[derive(Debug, Clone, Copy, PartialEq, Eq, Structural)]
pub enum QzssSignal {
    /// L1 C/A
    L1CA,
    /// L1C
    L1C,
    /// L2C
    L2C,
    /// L5
    L5,
}

/// IRNSS signals.
#[derive(Debug, Clone, Copy, PartialEq, Eq, Structural)]
pub enum IrnssSignal {
    /// L5
    L5,
    /// S band
    S,
}

/// A signal of one of the systems.
#[derive(Debug, Clone, Copy, PartialEq, Eq, Structural)]
pub enum SatelliteSignal {
    Gps(GpsSignal),
    Beidou(BeidouSignal),
    Galileo(GalileoSignal),
    Qzss(QzssSignal),
    Irnss(IrnssSignal),
}

/// Why a satellite system computation failed.
#[derive(Debug, Clone)]
pub enum SatelliteSystemError {
    /// The signal is not supported.
    UnsupportedSignal,
    /// A navigation message could not be decoded.
    NavigationParseError(String),
    /// The ephemeris is not of this processor's system.
    InvalidEphemeris,
    /// A computation failed.
    ComputationError(String),
}

/// Processor of GPS ephemerides and signals.
#[derive(Debug, Clone, Copy, PartialEq, Eq, Structural)]
pub struct GpsProcessor;

/// Processor of BeiDou ephemerides and signals.
#[derive(Debug, Clone, Copy, PartialEq, Eq, Structural)]
pub struct BeidouProcessor;

/// Processor of Galileo ephemerides and signals.
#[derive(Debug, Clone, Copy, PartialEq, Eq, Structural)]
pub struct GalileoProcessor;

/// Processor of QZSS ephemerides and signals.
#[derive(Debug, Clone, Copy, PartialEq, Eq, Structural)]
pub struct QzssProcessor;

/// Processor of IRNSS ephemerides and signals.
#[derive(Debug, Clone, Copy, PartialEq, Eq, Structural)]
pub struct IrnssProcessor;

/// Chooses the processor of a satellite system.
#[derive(Debug, Clone, Copy, PartialEq, Eq, Structural)]
pub struct SatelliteSystemFactory;

impl GpsProcessor {
    /// The GPS signals supported: L1 C/A, L1 P, L2 P, L2C and L5.
    pub fn get_supported_signals(&self) -> (r: Vec<SatelliteSignal>)
        ensures
            r@ == seq![
                SatelliteSignal::Gps(GpsSignal::L1CA),
                SatelliteSignal::Gps(GpsSignal::L1P),
                SatelliteSignal::Gps(GpsSignal::L2P),
                SatelliteSignal::Gps(GpsSignal::L2C),
                SatelliteSignal::Gps(GpsSignal::L5),
            ],
    {
        vec![
            SatelliteSignal::Gps(GpsSignal::L1CA),
            SatelliteSignal::Gps(GpsSignal::L1P),
            SatelliteSignal::Gps(GpsSignal::L2P),
            SatelliteSignal::Gps(GpsSignal::L2C),
            SatelliteSignal::Gps(GpsSignal::L5),
        ]
    }
}

impl BeidouProcessor {
    /// The BeiDou signals supported: B1I, B1C, B2I and B3I.
    pub fn get_supported_signals(&self) -> (r: Vec<SatelliteSignal>)
        ensures
            r@ == seq![
                SatelliteSignal::Beidou(BeidouSignal::B1I),
                SatelliteSignal::Beidou(BeidouSignal::B1C),
                SatelliteSignal::Beidou(BeidouSignal::B2I),
                SatelliteSignal::Beidou(BeidouSignal::B3I),
            ],
    {
        vec![
            SatelliteSignal::Beidou(BeidouSignal::B1I),
            SatelliteSignal::Beidou(BeidouSignal::B1C),
            SatelliteSignal::Beidou(BeidouSignal::B2I),
            SatelliteSignal::Beidou(BeidouSignal::B3I),
        ]
    }
}

impl GalileoProcessor {
    /// The Galileo signals supported: E1-B, E1-C, E5a-I and E5b-I.
    pub fn get_supported_signals(&self) -> (r: Vec<SatelliteSignal>)
        ensures
            r@ == seq![
                SatelliteSignal::Galileo(GalileoSignal::E1B),
                SatelliteSignal::Galileo(GalileoSignal::E1C),
                SatelliteSignal::Galileo(GalileoSignal::E5aI),
                SatelliteSignal::Galileo(GalileoSignal::E5bI),
            ],
    {
        vec![
            SatelliteSignal::Galileo(GalileoSignal::E1B),
            SatelliteSignal::Galileo(GalileoSignal::E1C),
            SatelliteSignal::Galileo(GalileoSignal::E5aI),
            SatelliteSignal::Galileo(GalileoSignal::E5bI),
        ]
    }
}

impl QzssProcessor {
    /// The QZSS signals supported: L1 C/A, L1C, L2C and L5.
    pub fn get_supported_signals(&self) -> (r: Vec<SatelliteSignal>)
        ensures
            r@ == seq![
                SatelliteSignal::Qzss(QzssSignal::L1CA),
                SatelliteSignal::Qzss(QzssSignal::L1C),
                SatelliteSignal::Qzss(QzssSignal::L2C),
                SatelliteSignal::Qzss(QzssSignal::L5),
            ],
    {
        vec![
            SatelliteSignal::Qzss(QzssSignal::L1CA),
            SatelliteSignal::Qzss(QzssSignal::L1C),
            SatelliteSignal::Qzss(QzssSignal::L2C),
            SatelliteSignal::Qzss(QzssSignal::L5),
        ]
    }
}

impl IrnssProcessor {
    /// The IRNSS signals supported: L5 and S band.
    pub fn get_supported_signals(&self) -> (r: Vec<SatelliteSignal>)
        ensures
            r@ == seq![SatelliteSignal::Irnss(IrnssSignal::L5), SatelliteSignal::Irnss(IrnssSignal::S)],
    {
        vec![SatelliteSignal::Irnss(IrnssSignal::L5), SatelliteSignal::Irnss(IrnssSignal::S)]
    }
}

} // verus!
