//! Quality and lock flags of RINEX observations.

use vstd::prelude::*;

verus! {

/// Quality indicator of an observation.
#[derive(Debug, Clone, Copy, PartialEq, Eq, Structural)]
pub enum RinexObsQuality {
    /// Normal observation (0).
    Good,
    /// Weak signal (1).
    Weak,
    /// Not usable (2).
    Bad,
    /// Obtained by smoothing (5).
    Smoothed,
    /// Checked by external quality control (6).
    ExternalQA,
    /// Provided by another system (7).
    OtherSystem,
    /// Simulated (8).
    Simulated,
    /// Not available (9).
    Unavailable,
}

/// The number that stands for quality `q`.
pub open spec fn quality_code(q: RinexObsQuality) -> u8 {
    match q {
        RinexObsQuality::Good => 0,
        RinexObsQuality::Weak => 1,
        RinexObsQuality::Bad => 2,
        RinexObsQuality::Smoothed => 5,
        RinexObsQuality::ExternalQA => 6,
        RinexObsQuality::OtherSystem => 7,
        RinexObsQuality::Simulated => 8,
        RinexObsQuality::Unavailable => 9,
    }
}

impl RinexObsQuality {
    /// The number that stands for the quality.
    pub fn code(&self) -> (c: u8)
        ensures
            c == quality_code(*self),
    {
        match self {
            RinexObsQuality::Good => 0,
            RinexObsQuality::Weak => 1,
            RinexObsQuality::Bad => 2,
            RinexObsQuality::Smoothed => 5,
            RinexObsQuality::ExternalQA => 6,
            RinexObsQuality::OtherSystem => 7,
            RinexObsQuality::Simulated => 8,
            RinexObsQuality::Unavailable => 9,
        }
    }

    /// Whether an observation of this quality counts as valid: it is neither
    /// unavailable nor marked not usable.
    pub fn is_usable(&self) -> (b: bool)
        ensures
            b == (*self != RinexObsQuality::Unavailable && *self != RinexObsQuality::Bad),
    {
        match self {
            RinexObsQuality::Unavailable | RinexObsQuality::Bad => false,
            _ => true,
        }
    }
}

impl Default for RinexObsQuality {
    fn default() -> (q: Self)
        ensures
            q == RinexObsQuality::Good,
    {
        RinexObsQuality::Good
    }
}

/// Lock status of an observation.
#[derive(Debug, Clone, Copy, PartialEq, Eq, Structural)]
pub enum RinexObsStatus {
    /// Lock kept (0).
    Normal,
    /// Loss of lock (1).
    LossOfLock,
    /// Half-cycle ambiguity (2).
    HalfCycleSlip,
    /// Half-cycle ambiguity and loss of lock (3).
    HalfCycleSlipAndLossOfLock,
    /// Not known (4).
    Unknown,
}

/// The number that stands for status `s`.
pub open spec fn status_code(s: RinexObsStatus) -> u8 {
    match s {
        RinexObsStatus::Normal => 0,
        RinexObsStatus::LossOfLock => 1,
        RinexObsStatus::HalfCycleSlip => 2,
        RinexObsStatus::HalfCycleSlipAndLossOfLock => 3,
        RinexObsStatus::Unknown => 4,
    }
}

impl RinexObsStatus {
    /// The number that stands for the status.
    pub fn code(&self) -> (c: u8)
        ensures
            c == status_code(*self),
    {
        match self {
            RinexObsStatus::Normal => 0,
            RinexObsStatus::LossOfLock => 1,
            RinexObsStatus::HalfCycleSlip => 2,
            RinexObsStatus::HalfCycleSlipAndLossOfLock => 3,
            RinexObsStatus::Unknown => 4,
        }
    }
}

impl Default for RinexObsStatus {
    fn default() -> (s: Self)
        ensures
            s == RinexObsStatus::Normal,
    {
        RinexObsStatus::Normal
    }
}

/// A cycle-slip mark on an observation.
#[derive(Debug, Clone, Copy, PartialEq, Eq, Structural)]
pub struct CycleSlip {
    /// Whether a slip was detected.
    pub detected: bool,
    /// The kind of slip.
    pub status: RinexObsStatus,
}

impl CycleSlip {
    /// The loss-of-lock indicator the mark gives: the status number where a
    /// slip was detected, 0 otherwise.
    pub fn lli(&self) -> (v: u8)
        ensures
            v == (if self.detected { status_code(self.status) } else { 0 }),
    {
        if self.detected {
            self.status.code()
        } else {
            0
        }
    }
}

impl Default for CycleSlip {
    fn default() -> (c: Self)
        ensures
            c == (CycleSlip { detected: false, status: RinexObsStatus::Normal }),
    {
        Self { detected: false, status: RinexObsStatus::Normal }
    }
}

} // verus!
