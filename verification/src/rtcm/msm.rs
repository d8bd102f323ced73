//! RTCM 3 Multiple Signal Messages (MSM4 to MSM7): header layout, satellite
//! and signal masks, and the raw per-satellite and per-cell fields.

use vstd::prelude::*;
use vstd::string::*;
use vstd::arithmetic::power2::lemma2_to64;
use crate::util::bits::{BitError, BitReader, bit_at, bits_value, bits_signed, lemma_bits_value_bound, lemma_bits_signed_bound, lemma_bits_value_concat};
use crate::rtcm::rtcm3::{Rtcm3MessageType, is_msm_type};
use crate::util::text::{decimal_text, text_with_number};

verus! {

/// Why an MSM message could not be decoded.
#[derive(Debug, Clone, PartialEq, Eq)]
pub enum MsmError {
    /// The message number is not one of MSM4 to MSM7 of GPS, GLONASS, Galileo or BeiDou.
    InvalidMessageType(u16),
    /// The satellite mask is not usable.
    InvalidSatelliteMask,
    /// The signal mask is not usable.
    InvalidSignalMask,
    /// The cell mask is not usable.
    InvalidCellMask,
    /// A field held a value outside its range.
    ParseError(String),
    /// The bit reader could not deliver a field.
    IoError(BitError),
}

/// The MSM flavours, by how much each cell carries.
#[derive(Debug, Clone, Copy, PartialEq, Eq, Structural)]
pub enum MsmType {
    /// MSM1: compact pseudoranges.
    Compact,
    /// MSM2: compact phase ranges.
    CompactPhaseRangeRate,
    /// MSM3: compact pseudoranges and phase ranges.
    CompactPhaseRange,
    /// MSM4: full pseudoranges and phase ranges with CNR.
    FullPseudoranges,
    /// MSM5: as MSM4 plus phase range rates.
    FullPseudorangesRates,
    /// MSM6: full pseudoranges and phase ranges, high resolution.
    FullPhaserangesPseudoranges,
    /// MSM7: as MSM6 plus phase range rates.
    FullPhaserangesPseudorangesRates,
}

/// The satellite system that an MSM message number belongs to.
#[derive(Debug, Clone, Copy, PartialEq, Eq, Structural)]
pub enum GnssType {
    /// GPS (1071-1077)
    Gps,
    /// GLONASS (1081-1087)
    Glonass,
    /// Galileo (1091-1097)
    Galileo,
    /// SBAS (1101-1107)
    Sbas,
    /// QZSS (1111-1117)
    Qzss,
    /// BeiDou (1121-1127)
    Beidou,
    /// NavIC/IRNSS (1131-1137)
    NavIc,
    /// Any other number.
    Other(u8),
}

/// The epoch of an MSM message as transmitted: milliseconds of the GPS,
/// Galileo, SBAS or QZSS week; day of week and milliseconds of day for
/// GLONASS; milliseconds of the BeiDou week (to which 14 s are added to reach
/// GPS time).
#[derive(Debug, Clone, Copy, PartialEq, Eq, Structural)]
pub enum MsmEpoch {
    /// Milliseconds of the week.
    TimeOfWeek { ms: u32 },
    /// GLONASS day of week and milliseconds of day.
    GlonassDayTime { day_of_week: u8, ms: u32 },
    /// BeiDou milliseconds of the week.
    BeidouTimeOfWeek { ms: u32 },
}

/// Per-satellite MSM fields, unscaled.
#[derive(Debug, Clone, Copy, PartialEq, Eq, Structural)]
pub struct MsmSatelliteData {
    /// Satellite number (1-64).
    pub satellite_id: u8,
    /// Rough range in units of 2^-10 ms (integer milliseconds times 1024 plus
    /// the 10-bit fraction); 0 where the integer part was invalid (255).
    pub rough_range_ms: u32,
    /// Phase range rate in m/s, where present and valid.
    pub phase_range_rate: Option<i16>,
}

/// Per-cell (satellite and signal) MSM fields, unscaled.
#[derive(Debug, Clone, Copy, PartialEq, Eq, Structural)]
pub struct MsmSignalData {
    /// Index of the satellite in the message's satellite list.
    pub satellite_index: u8,
    /// Index of the signal in the message's signal list.
    pub signal_index: u8,
    /// Fine pseudorange, in units of 2^-24 ms (MSM4/5, 15 bits) or 2^-29 ms (MSM6/7, 20 bits), where valid.
    pub fine_pseudorange: Option<i32>,
    /// Fine phase range, in units of 2^-29 ms (MSM4/5) or 2^-31 ms (MSM6/7), where valid.
    pub fine_phaserange: Option<i32>,
    /// Lock time indicator (low eight bits of the field).
    pub lock_time_indicator: Option<u8>,
    /// Half-cycle ambiguity indicator.
    pub half_cycle_ambiguity: Option<bool>,
    /// Carrier-to-noise ratio, in units of 1/16 dB-Hz (10-bit field) or dB-Hz (6-bit field).
    pub cnr: Option<u16>,
}

/// The satellite system of MSM message number `msg_type`.
pub open spec fn gnss_type_of(msg_type: u16) -> GnssType {
    if 1074 <= msg_type <= 1077 {
        GnssType::Gps
    } else if 1084 <= msg_type <= 1087 {
        GnssType::Glonass
    } else if 1094 <= msg_type <= 1097 {
        GnssType::Galileo
    } else if 1104 <= msg_type <= 1107 {
        GnssType::Sbas
    } else if 1114 <= msg_type <= 1117 {
        GnssType::Qzss
    } else if 1124 <= msg_type <= 1127 {
        GnssType::Beidou
    } else if 1134 <= msg_type <= 1137 {
        GnssType::NavIc
    } else {
        GnssType::Other(0)
    }
}

/// The satellite system of an MSM4-7 message number.
pub fn get_gnss_type(msg_type: u16) -> (r: GnssType)
    ensures
        r == gnss_type_of(msg_type),
{
    if 1074 <= msg_type && msg_type <= 1077 {
        GnssType::Gps
    } else if 1084 <= msg_type && msg_type <= 1087 {
        GnssType::Glonass
    } else if 1094 <= msg_type && msg_type <= 1097 {
        GnssType::Galileo
    } else if 1104 <= msg_type && msg_type <= 1107 {
        GnssType::Sbas
    } else if 1114 <= msg_type && msg_type <= 1117 {
        GnssType::Qzss
    } else if 1124 <= msg_type && msg_type <= 1127 {
        GnssType::Beidou
    } else if 1134 <= msg_type && msg_type <= 1137 {
        GnssType::NavIc
    } else {
        GnssType::Other(0)
    }
}

/// Whether bit `i` (0 = least significant) of a 64-bit mask is set.
pub open spec fn mask64_bit(mask: u64, i: nat) -> bool {
    mask & (1u64 << (i as u64)) != 0
}

/// Whether bit `i` (0 = least significant) of a 32-bit mask is set.
pub open spec fn mask32_bit(mask: u32, i: nat) -> bool {
    mask & (1u32 << (i as u32)) != 0
}

/// The numbers `i + 1`, in increasing order, of the set bits `i < n` of a
/// 64-bit mask.
pub open spec fn mask64_ids(mask: u64, n: nat) -> Seq<u8>
    decreases n,
{
    if n == 0 {
        Seq::empty()
    } else if mask64_bit(mask, (n - 1) as nat) {
        mask64_ids(mask, (n - 1) as nat).push(n as u8)
    } else {
        mask64_ids(mask, (n - 1) as nat)
    }
}

/// The numbers `i + 1`, in increasing order, of the set bits `i < n` of a
/// 32-bit mask.
pub open spec fn mask32_ids(mask: u32, n: nat) -> Seq<u8>
    decreases n,
{
    if n == 0 {
        Seq::empty()
    } else if mask32_bit(mask, (n - 1) as nat) {
        mask32_ids(mask, (n - 1) as nat).push(n as u8)
    } else {
        mask32_ids(mask, (n - 1) as nat)
    }
}

/// The satellite numbers (1-64) whose bits are set in `satellite_mask`, bit 0
/// giving satellite 1, in increasing order.
pub fn extract_satellite_ids(satellite_mask: u64) -> (ids: Vec<u8>)
    ensures
        ids@ == mask64_ids(satellite_mask, 64),
{
    let mut ids: Vec<u8> = Vec::new();
    let mut i: u64 = 0;
    while i < 64
        invariant
            i <= 64,
            ids@ == mask64_ids(satellite_mask, i as nat),
        decreases 64 - i,
    {
        if (satellite_mask & (1u64 << i)) != 0 {
            ids.push((i + 1) as u8);
        }
        i = i + 1;
    }
    ids
}

/// The signal numbers (1-32) whose bits are set in `signal_mask`, bit 0
/// giving signal 1, in increasing order.
pub fn extract_signal_ids(signal_mask: u32) -> (ids: Vec<u8>)
    ensures
        ids@ == mask32_ids(signal_mask, 32),
{
    let mut ids: Vec<u8> = Vec::new();
    let mut i: u32 = 0;
    while i < 32
        invariant
            i <= 32,
            ids@ == mask32_ids(signal_mask, i as nat),
        decreases 32 - i,
    {
        if (signal_mask & (1u32 << i)) != 0 {
            ids.push((i + 1) as u8);
        }
        i = i + 1;
    }
    ids
}

/// The identifiers taken from a 64-bit mask are strictly increasing, lie in
/// 1..=n, and are exactly the positions (plus one) of the set bits.
pub proof fn lemma_mask64_ids(mask: u64, n: nat)
    requires
        n <= 64,
    ensures
        forall|a: int, b: int| 0 <= a < b < mask64_ids(mask, n).len()
            ==> mask64_ids(mask, n)[a] < mask64_ids(mask, n)[b],
        forall|k: int| 0 <= k < mask64_ids(mask, n).len()
            ==> 1 <= #[trigger] mask64_ids(mask, n)[k] <= n,
        forall|i: nat| i < n ==> (mask64_bit(mask, i) <==> mask64_ids(mask, n).contains((i + 1) as u8)),
    decreases n,
{
    if n > 0 {
        let n1 = (n - 1) as nat;
        lemma_mask64_ids(mask, n1);
        let prev = mask64_ids(mask, n1);
        assert forall|i: nat| i < n implies (mask64_bit(mask, i) <==> mask64_ids(mask, n).contains(
            (i + 1) as u8,
        )) by {
            if mask64_bit(mask, n1) {
                if i < n1 {
                    if mask64_ids(mask, n).contains((i + 1) as u8) {
                        let k = choose|k: int| 0 <= k < mask64_ids(mask, n).len() && mask64_ids(mask, n)[k] == (i + 1) as u8;
                        if k == prev.len() {
                            assert((n as u8) == (i + 1) as u8);
                        } else {
                            assert(prev[k] == (i + 1) as u8);
                        }
                    }
                    if prev.contains((i + 1) as u8) {
                        let k = choose|k: int| 0 <= k < prev.len() && prev[k] == (i + 1) as u8;
                        assert(mask64_ids(mask, n)[k] == (i + 1) as u8);
                    }
                } else {
                    assert(mask64_ids(mask, n)[prev.len() as int] == n as u8);
                }
            } else {
                if i == n1 {
                    if prev.contains((i + 1) as u8) {
                        let k = choose|k: int| 0 <= k < prev.len() && prev[k] == (i + 1) as u8;
                        assert(prev[k] <= n1);
                    }
                }
            }
        }
    }
}

/// The identifiers taken from a 32-bit mask are strictly increasing, lie in
/// 1..=n, and are exactly the positions (plus one) of the set bits.
pub proof fn lemma_mask32_ids(mask: u32, n: nat)
    requires
        n <= 32,
    ensures
        forall|a: int, b: int| 0 <= a < b < mask32_ids(mask, n).len()
            ==> mask32_ids(mask, n)[a] < mask32_ids(mask, n)[b],
        forall|k: int| 0 <= k < mask32_ids(mask, n).len()
            ==> 1 <= #[trigger] mask32_ids(mask, n)[k] <= n,
        forall|i: nat| i < n ==> (mask32_bit(mask, i) <==> mask32_ids(mask, n).contains((i + 1) as u8)),
    decreases n,
{
    if n > 0 {
        let n1 = (n - 1) as nat;
        lemma_mask32_ids(mask, n1);
        let prev = mask32_ids(mask, n1);
        assert forall|i: nat| i < n implies (mask32_bit(mask, i) <==> mask32_ids(mask, n).contains(
            (i + 1) as u8,
        )) by {
            if mask32_bit(mask, n1) {
                if i < n1 {
                    if mask32_ids(mask, n).contains((i + 1) as u8) {
                        let k = choose|k: int| 0 <= k < mask32_ids(mask, n).len() && mask32_ids(mask, n)[k] == (i + 1) as u8;
                        if k == prev.len() {
                            assert((n as u8) == (i + 1) as u8);
                        } else {
                            assert(prev[k] == (i + 1) as u8);
                        }
                    }
                    if prev.contains((i + 1) as u8) {
                        let k = choose|k: int| 0 <= k < prev.len() && prev[k] == (i + 1) as u8;
                        assert(mask32_ids(mask, n)[k] == (i + 1) as u8);
                    }
                } else {
                    assert(mask32_ids(mask, n)[prev.len() as int] == n as u8);
                }
            } else {
                if i == n1 {
                    if prev.contains((i + 1) as u8) {
                        let k = choose|k: int| 0 <= k < prev.len() && prev[k] == (i + 1) as u8;
                        assert(prev[k] <= n1);
                    }
                }
            }
        }
    }
}

/// Which MSM message (flavour and system) `m` is, if it is one.
pub open spec fn msm_variant(m: Rtcm3MessageType) -> Option<(MsmType, GnssType)> {
    match m {
        Rtcm3MessageType::Msm4Gps { .. } => Some((MsmType::FullPseudoranges, GnssType::Gps)),
        Rtcm3MessageType::Msm4Glonass { .. } => Some((MsmType::FullPseudoranges, GnssType::Glonass)),
        Rtcm3MessageType::Msm4Galileo { .. } => Some((MsmType::FullPseudoranges, GnssType::Galileo)),
        Rtcm3MessageType::Msm4Beidou { .. } => Some((MsmType::FullPseudoranges, GnssType::Beidou)),
        Rtcm3MessageType::Msm5Gps { .. } => Some((MsmType::FullPseudorangesRates, GnssType::Gps)),
        Rtcm3MessageType::Msm5Glonass { .. } => Some((MsmType::FullPseudorangesRates, GnssType::Glonass)),
        Rtcm3MessageType::Msm5Galileo { .. } => Some((MsmType::FullPseudorangesRates, GnssType::Galileo)),
        Rtcm3MessageType::Msm5Beidou { .. } => Some((MsmType::FullPseudorangesRates, GnssType::Beidou)),
        Rtcm3MessageType::Msm6Gps { .. } => Some((MsmType::FullPhaserangesPseudoranges, GnssType::Gps)),
        Rtcm3MessageType::Msm6Glonass { .. } => Some((MsmType::FullPhaserangesPseudoranges, GnssType::Glonass)),
        Rtcm3MessageType::Msm6Galileo { .. } => Some((MsmType::FullPhaserangesPseudoranges, GnssType::Galileo)),
        Rtcm3MessageType::Msm6Beidou { .. } => Some((MsmType::FullPhaserangesPseudoranges, GnssType::Beidou)),
        Rtcm3MessageType::Msm7Gps { .. } => Some((MsmType::FullPhaserangesPseudorangesRates, GnssType::Gps)),
        Rtcm3MessageType::Msm7Glonass { .. } => Some((MsmType::FullPhaserangesPseudorangesRates, GnssType::Glonass)),
        Rtcm3MessageType::Msm7Galileo { .. } => Some((MsmType::FullPhaserangesPseudorangesRates, GnssType::Galileo)),
        Rtcm3MessageType::Msm7Beidou { .. } => Some((MsmType::FullPhaserangesPseudorangesRates, GnssType::Beidou)),
        _ => None,
    }
}

/// Station, epoch, satellites and cells of an MSM message.
pub open spec fn msm_content(m: Rtcm3MessageType) -> Option<(u16, MsmEpoch, Seq<MsmSatelliteData>, Seq<MsmSignalData>)> {
    match m {
        Rtcm3MessageType::Msm4Gps { station_id, epoch_time, satellites, signals } => Some((station_id, epoch_time, satellites@, signals@)),
        Rtcm3MessageType::Msm4Glonass { station_id, epoch_time, satellites, signals } => Some((station_id, epoch_time, satellites@, signals@)),
        Rtcm3MessageType::Msm4Galileo { station_id, epoch_time, satellites, signals } => Some((station_id, epoch_time, satellites@, signals@)),
        Rtcm3MessageType::Msm4Beidou { station_id, epoch_time, satellites, signals } => Some((station_id, epoch_time, satellites@, signals@)),
        Rtcm3MessageType::Msm5Gps { station_id, epoch_time, satellites, signals } => Some((station_id, epoch_time, satellites@, signals@)),
        Rtcm3MessageType::Msm5Glonass { station_id, epoch_time, satellites, signals } => Some((station_id, epoch_time, satellites@, signals@)),
        Rtcm3MessageType::Msm5Galileo { station_id, epoch_time, satellites, signals } => Some((station_id, epoch_time, satellites@, signals@)),
        Rtcm3MessageType::Msm5Beidou { station_id, epoch_time, satellites, signals } => Some((station_id, epoch_time, satellites@, signals@)),
        Rtcm3MessageType::Msm6Gps { station_id, epoch_time, satellites, signals } => Some((station_id, epoch_time, satellites@, signals@)),
        Rtcm3MessageType::Msm6Glonass { station_id, epoch_time, satellites, signals } => Some((station_id, epoch_time, satellites@, signals@)),
        Rtcm3MessageType::Msm6Galileo { station_id, epoch_time, satellites, signals } => Some((station_id, epoch_time, satellites@, signals@)),
        Rtcm3MessageType::Msm6Beidou { station_id, epoch_time, satellites, signals } => Some((station_id, epoch_time, satellites@, signals@)),
        Rtcm3MessageType::Msm7Gps { station_id, epoch_time, satellites, signals } => Some((station_id, epoch_time, satellites@, signals@)),
        Rtcm3MessageType::Msm7Glonass { station_id, epoch_time, satellites, signals } => Some((station_id, epoch_time, satellites@, signals@)),
        Rtcm3MessageType::Msm7Galileo { station_id, epoch_time, satellites, signals } => Some((station_id, epoch_time, satellites@, signals@)),
        Rtcm3MessageType::Msm7Beidou { station_id, epoch_time, satellites, signals } => Some((station_id, epoch_time, satellites@, signals@)),
        _ => None,
    }
}

/// Whether MSM messages of this flavour and system are delivered as such
/// (MSM4 to MSM7 of GPS, GLONASS, Galileo and BeiDou).
pub open spec fn msm_supported(msm_type: MsmType, gnss_type: GnssType) -> bool {
    &&& (msm_type == MsmType::FullPseudoranges || msm_type == MsmType::FullPseudorangesRates
        || msm_type == MsmType::FullPhaserangesPseudoranges || msm_type == MsmType::FullPhaserangesPseudorangesRates)
    &&& (gnss_type == GnssType::Gps || gnss_type == GnssType::Glonass || gnss_type == GnssType::Galileo
        || gnss_type == GnssType::Beidou)
}

/// The placeholder for an MSM message of an unsupported flavour or system:
/// its number as two big-endian bytes.
fn raw_msm(msg_type: u16) -> (m: Rtcm3MessageType)
    ensures
        m matches Rtcm3MessageType::Raw { msg_type: t, payload } && t == msg_type
            && payload@ == seq![(msg_type / 256) as u8, (msg_type % 256) as u8],
{
    let mut raw_data: Vec<u8> = Vec::new();
    proof {
        assert((msg_type >> 8u16) == msg_type / 256) by (bit_vector);
        assert((msg_type & 0xFFu16) == msg_type % 256) by (bit_vector);
    }
    raw_data.push((msg_type >> 8) as u8);
    raw_data.push((msg_type & 0xFF) as u8);
    proof {
        assert(raw_data@ =~= seq![(msg_type / 256) as u8, (msg_type % 256) as u8]);
    }
    Rtcm3MessageType::Raw { msg_type, payload: raw_data }
}

/// Builds the message for the header's flavour and system, carrying the
/// station, epoch, satellites and cells; other flavours and systems give a
/// raw message holding just the message number.
pub fn create_msm_message(
    msg_type: u16,
    header: MsmHeader,
    satellites: Vec<MsmSatelliteData>,
    signals: Vec<MsmSignalData>,
) -> (r: Result<Rtcm3MessageType, MsmError>)
    ensures
        r is Ok,
        msm_supported(header.msm_type, header.gnss_type) ==> {
            &&& msm_variant(r->Ok_0) == Some((header.msm_type, header.gnss_type))
            &&& msm_content(r->Ok_0) == Some((header.station_id, header.epoch_time, satellites@, signals@))
        },
        !msm_supported(header.msm_type, header.gnss_type) ==> (r->Ok_0 matches Rtcm3MessageType::Raw {
            msg_type: t,
            payload,
        } && t == msg_type && payload@ == seq![(msg_type / 256) as u8, (msg_type % 256) as u8]),
{
    match header.msm_type {
        MsmType::FullPseudoranges => {
            match header.gnss_type {
                GnssType::Gps => Ok(Rtcm3MessageType::Msm4Gps {
                    station_id: header.station_id,
                    epoch_time: header.epoch_time,
                    satellites,
                    signals,
                }),
                GnssType::Glonass => Ok(Rtcm3MessageType::Msm4Glonass {
                    station_id: header.station_id,
                    epoch_time: header.epoch_time,
                    satellites,
                    signals,
                }),
                GnssType::Galileo => Ok(Rtcm3MessageType::Msm4Galileo {
                    station_id: header.station_id,
                    epoch_time: header.epoch_time,
                    satellites,
                    signals,
                }),
                GnssType::Beidou => Ok(Rtcm3MessageType::Msm4Beidou {
                    station_id: header.station_id,
                    epoch_time: header.epoch_time,
                    satellites,
                    signals,
                }),
                _ => Ok(raw_msm(msg_type)),
            }
        },
        MsmType::FullPseudorangesRates => {
            match header.gnss_type {
                GnssType::Gps => Ok(Rtcm3MessageType::Msm5Gps {
                    station_id: header.station_id,
                    epoch_time: header.epoch_time,
                    satellites,
                    signals,
                }),
                GnssType::Glonass => Ok(Rtcm3MessageType::Msm5Glonass {
                    station_id: header.station_id,
                    epoch_time: header.epoch_time,
                    satellites,
                    signals,
                }),
                GnssType::Galileo => Ok(Rtcm3MessageType::Msm5Galileo {
                    station_id: header.station_id,
                    epoch_time: header.epoch_time,
                    satellites,
                    signals,
                }),
                GnssType::Beidou => Ok(Rtcm3MessageType::Msm5Beidou {
                    station_id: header.station_id,
                    epoch_time: header.epoch_time,
                    satellites,
                    signals,
                }),
                _ => Ok(raw_msm(msg_type)),
            }
        },
        MsmType::FullPhaserangesPseudoranges => {
            match header.gnss_type {
                GnssType::Gps => Ok(Rtcm3MessageType::Msm6Gps {
                    station_id: header.station_id,
                    epoch_time: header.epoch_time,
                    satellites,
                    signals,
                }),
                GnssType::Glonass => Ok(Rtcm3MessageType::Msm6Glonass {
                    station_id: header.station_id,
                    epoch_time: header.epoch_time,
                    satellites,
                    signals,
                }),
                GnssType::Galileo => Ok(Rtcm3MessageType::Msm6Galileo {
                    station_id: header.station_id,
                    epoch_time: header.epoch_time,
                    satellites,
                    signals,
                }),
                GnssType::Beidou => Ok(Rtcm3MessageType::Msm6Beidou {
                    station_id: header.station_id,
                    epoch_time: header.epoch_time,
                    satellites,
                    signals,
                }),
                _ => Ok(raw_msm(msg_type)),
            }
        },
        MsmType::FullPhaserangesPseudorangesRates => {
            match header.gnss_type {
                GnssType::Gps => Ok(Rtcm3MessageType::Msm7Gps {
                    station_id: header.station_id,
                    epoch_time: header.epoch_time,
                    satellites,
                    signals,
                }),
                GnssType::Glonass => Ok(Rtcm3MessageType::Msm7Glonass {
                    station_id: header.station_id,
                    epoch_time: header.epoch_time,
                    satellites,
                    signals,
                }),
                GnssType::Galileo => Ok(Rtcm3MessageType::Msm7Galileo {
                    station_id: header.station_id,
                    epoch_time: header.epoch_time,
                    satellites,
                    signals,
                }),
                GnssType::Beidou => Ok(Rtcm3MessageType::Msm7Beidou {
                    station_id: header.station_id,
                    epoch_time: header.epoch_time,
                    satellites,
                    signals,
                }),
                _ => Ok(raw_msm(msg_type)),
            }
        },
        _ => Ok(raw_msm(msg_type)),
    }
}

/// The text of a bit-reader failure on the MSM decoding path.
pub open spec fn bit_error_text(e: BitError) -> Seq<char> {
    match e {
        BitError::UnexpectedEof => "End of data"@,
        BitError::InvalidInput => "Cannot read more than 32 bits into u32"@,
    }
}

/// The text that describes an MSM decoding failure.
pub open spec fn msm_error_text(e: MsmError) -> Seq<char> {
    match e {
        MsmError::InvalidMessageType(t) => "无效的MSM消息类型: "@ + decimal_text(t as nat),
        MsmError::InvalidSatelliteMask => "无效的卫星掩码"@,
        MsmError::InvalidSignalMask => "无效的信号掩码"@,
        MsmError::InvalidCellMask => "无效的单元掩码"@,
        MsmError::ParseError(s) => "数据解析错误: "@ + s@,
        MsmError::IoError(b) => "I/O 错误: "@ + bit_error_text(b),
    }
}

impl MsmError {
    /// The text that describes this failure.
    pub fn describe(&self) -> (s: String)
        ensures
            s@ == msm_error_text(*self),
    {
        match self {
            MsmError::InvalidMessageType(t) => text_with_number("无效的MSM消息类型: ", *t as u64),
            MsmError::InvalidSatelliteMask => String::from_str("无效的卫星掩码"),
            MsmError::InvalidSignalMask => String::from_str("无效的信号掩码"),
            MsmError::InvalidCellMask => String::from_str("无效的单元掩码"),
            MsmError::ParseError(detail) => {
                let mut s = String::from_str("数据解析错误: ");
                s.append(detail.as_str());
                s
            },
            MsmError::IoError(b) => {
                let mut s = String::from_str("I/O 错误: ");
                match b {
                    BitError::UnexpectedEof => s.append("End of data"),
                    BitError::InvalidInput => s.append("Cannot read more than 32 bits into u32"),
                }
                s
            },
        }
    }
}

/// The MSM message header, with the masks unscaled.
#[derive(Debug, Clone)]
pub struct MsmHeader {
    /// Reference station number.
    pub station_id: u16,
    /// Satellite system.
    pub gnss_type: GnssType,
    /// MSM flavour.
    pub msm_type: MsmType,
    /// Epoch as transmitted.
    pub epoch_time: MsmEpoch,
    /// More messages of the same epoch follow.
    pub multiple_message: bool,
    /// Issue of data station.
    pub issue_of_data_station: u8,
    /// Smoothing indicator.
    pub smooth_indicator: u8,
    /// Smoothing interval.
    pub smooth_interval: u8,
    /// Satellite mask (bit 0 is satellite 1).
    pub satellite_mask: u64,
    /// Signal mask (bit 0 is signal 1).
    pub signal_mask: u32,
    /// Cell mask, one entry (0 or 1) per satellite and signal.
    pub cell_mask: Vec<u8>,
}

/// The MSM flavour of an MSM4-7 message number: its last digit.
pub open spec fn msm_type_of(t: u16) -> MsmType {
    if t % 10 == 4 {
        MsmType::FullPseudoranges
    } else if t % 10 == 5 {
        MsmType::FullPseudorangesRates
    } else if t % 10 == 6 {
        MsmType::FullPhaserangesPseudoranges
    } else {
        MsmType::FullPhaserangesPseudorangesRates
    }
}

/// The station field of an MSM body (the frame body, which starts with the
/// 12-bit message number): the 12 bits from bit 12.
pub open spec fn msm_station(p: Seq<u8>) -> u16 {
    bits_value(p, 12, 12) as u16
}

/// The epoch field of an MSM body of system `g`, from bit 24: a 3-bit day of
/// week and 27-bit milliseconds of day for GLONASS, 30-bit milliseconds of
/// the week otherwise.
pub open spec fn msm_epoch(p: Seq<u8>, g: GnssType) -> MsmEpoch {
    match g {
        GnssType::Glonass => MsmEpoch::GlonassDayTime {
            day_of_week: bits_value(p, 24, 3) as u8,
            ms: bits_value(p, 27, 27) as u32,
        },
        GnssType::Beidou => MsmEpoch::BeidouTimeOfWeek { ms: bits_value(p, 24, 30) as u32 },
        _ => MsmEpoch::TimeOfWeek { ms: bits_value(p, 24, 30) as u32 },
    }
}

/// The first `n` bits from bit `at`, the first of them as bit 0 of a 64-bit
/// mask, the second as bit 1, and so on.
pub open spec fn wire_mask64(p: Seq<u8>, at: int, n: nat) -> u64
    decreases n,
{
    if n == 0 {
        0
    } else {
        let prev = wire_mask64(p, at, (n - 1) as nat);
        if bit_at(p, at + n - 1) == 1 {
            prev | (1u64 << ((n - 1) as u64))
        } else {
            prev
        }
    }
}

/// The first `n` bits from bit `at`, the first of them as bit 0 of a 32-bit
/// mask, the second as bit 1, and so on.
pub open spec fn wire_mask32(p: Seq<u8>, at: int, n: nat) -> u32
    decreases n,
{
    if n == 0 {
        0
    } else {
        let prev = wire_mask32(p, at, (n - 1) as nat);
        if bit_at(p, at + n - 1) == 1 {
            prev | (1u32 << ((n - 1) as u32))
        } else {
            prev
        }
    }
}

/// The satellite mask of an MSM body: the 64 bits from bit 73, after the
/// message number, station, epoch, multiple-message flag, issue of data
/// station, 7 reserved bits, clock steering, external clock and smoothing
/// fields. Its first bit stands for satellite 1, and is bit 0 of the mask.
pub open spec fn msm_satellite_mask(p: Seq<u8>) -> u64 {
    wire_mask64(p, 73, 64)
}

/// The signal mask of an MSM body: the 32 bits from bit 137, the first for
/// signal 1 (bit 0 of the mask).
pub open spec fn msm_signal_mask(p: Seq<u8>) -> u32 {
    wire_mask32(p, 137, 32)
}

/// Setting bit `k` of a 64-bit value sets that bit and leaves the others.
proof fn lemma_or_bit64(prev: u64, k: u64, i: u64)
    requires
        k < 64,
        i < 64,
    ensures
        ((prev | (1u64 << k)) & (1u64 << i) != 0) == ((prev & (1u64 << i) != 0) || i == k),
{
    assert(((prev | (1u64 << k)) & (1u64 << i) != 0) == ((prev & (1u64 << i) != 0) || i == k)) by (bit_vector)
        requires
            k < 64,
            i < 64,
    ;
}

/// Setting bit `k` of a 32-bit value sets that bit and leaves the others.
proof fn lemma_or_bit32(prev: u32, k: u32, i: u32)
    requires
        k < 32,
        i < 32,
    ensures
        ((prev | (1u32 << k)) & (1u32 << i) != 0) == ((prev & (1u32 << i) != 0) || i == k),
{
    assert(((prev | (1u32 << k)) & (1u32 << i) != 0) == ((prev & (1u32 << i) != 0) || i == k)) by (bit_vector)
        requires
            k < 32,
            i < 32,
    ;
}

/// Bit `i` of a wire-order mask is the `i`-th bit of the field.
pub proof fn lemma_wire_mask64_bits(p: Seq<u8>, at: int, n: nat)
    requires
        n <= 64,
    ensures
        forall|i: nat| i < 64 ==> (#[trigger] mask64_bit(wire_mask64(p, at, n), i) <==> (i < n && bit_at(p, at + i) == 1)),
    decreases n,
{
    if n == 0 {
        assert forall|i: nat| i < 64 implies !#[trigger] mask64_bit(wire_mask64(p, at, n), i) by {
            assert(0u64 & (1u64 << (i as u64)) == 0) by (bit_vector);
        }
    } else {
        lemma_wire_mask64_bits(p, at, (n - 1) as nat);
        let prev = wire_mask64(p, at, (n - 1) as nat);
        assert forall|i: nat| i < 64 implies (#[trigger] mask64_bit(wire_mask64(p, at, n), i) <==> (i < n
            && bit_at(p, at + i) == 1)) by {
            assert(mask64_bit(prev, i) <==> (i < n - 1 && bit_at(p, at + i) == 1));
            if bit_at(p, at + n - 1) == 1 {
                lemma_or_bit64(prev, (n - 1) as u64, i as u64);
            }
        }
    }
}

/// Bit `i` of a wire-order mask is the `i`-th bit of the field.
pub proof fn lemma_wire_mask32_bits(p: Seq<u8>, at: int, n: nat)
    requires
        n <= 32,
    ensures
        forall|i: nat| i < 32 ==> (#[trigger] mask32_bit(wire_mask32(p, at, n), i) <==> (i < n && bit_at(p, at + i) == 1)),
    decreases n,
{
    if n == 0 {
        assert forall|i: nat| i < 32 implies !#[trigger] mask32_bit(wire_mask32(p, at, n), i) by {
            assert(0u32 & (1u32 << (i as u32)) == 0) by (bit_vector);
        }
    } else {
        lemma_wire_mask32_bits(p, at, (n - 1) as nat);
        let prev = wire_mask32(p, at, (n - 1) as nat);
        assert forall|i: nat| i < 32 implies (#[trigger] mask32_bit(wire_mask32(p, at, n), i) <==> (i < n
            && bit_at(p, at + i) == 1)) by {
            assert(mask32_bit(prev, i) <==> (i < n - 1 && bit_at(p, at + i) == 1));
            if bit_at(p, at + n - 1) == 1 {
                lemma_or_bit32(prev, (n - 1) as u32, i as u32);
            }
        }
    }
}

/// In an MSM body, satellite `k + 1` is named exactly where the `k`-th bit
/// of the satellite mask field (from bit 73) is set, and signal `k + 1`
/// exactly where the `k`-th bit of the signal mask field (from bit 137) is.
pub proof fn lemma_msm_mask_numbering(p: Seq<u8>)
    ensures
        forall|k: nat| k < 64 ==> (mask64_ids(msm_satellite_mask(p), 64).contains(#[trigger] ((k + 1) as u8))
            <==> bit_at(p, 73 + k as int) == 1),
        forall|k: nat| k < 32 ==> (mask32_ids(msm_signal_mask(p), 32).contains(#[trigger] ((k + 1) as u8))
            <==> bit_at(p, 137 + k as int) == 1),
{
    lemma_wire_mask64_bits(p, 73, 64);
    lemma_wire_mask32_bits(p, 137, 32);
    lemma_mask64_ids(msm_satellite_mask(p), 64);
    lemma_mask32_ids(msm_signal_mask(p), 32);
    assert forall|k: nat| k < 64 implies (mask64_ids(msm_satellite_mask(p), 64).contains(#[trigger] ((k + 1) as u8))
        <==> bit_at(p, 73 + k as int) == 1) by {
        assert(mask64_bit(msm_satellite_mask(p), k) <==> bit_at(p, 73 + k as int) == 1);
    }
    assert forall|k: nat| k < 32 implies (mask32_ids(msm_signal_mask(p), 32).contains(#[trigger] ((k + 1) as u8))
        <==> bit_at(p, 137 + k as int) == 1) by {
        assert(mask32_bit(msm_signal_mask(p), k) <==> bit_at(p, 137 + k as int) == 1);
    }
}

/// Number of satellites that the satellite mask names.
pub open spec fn msm_satellite_count(p: Seq<u8>) -> nat {
    mask64_ids(msm_satellite_mask(p), 64).len()
}

/// Number of signals that the signal mask names.
pub open spec fn msm_signal_count(p: Seq<u8>) -> nat {
    mask32_ids(msm_signal_mask(p), 32).len()
}

/// Number of entries of the cell mask: one per satellite and signal.
pub open spec fn msm_cell_count(p: Seq<u8>) -> nat {
    msm_satellite_count(p) * msm_signal_count(p)
}

/// The cell mask of an MSM body, one entry (1 or 0) per bit from bit 169,
/// satellite by satellite, each with one entry per signal.
pub open spec fn msm_cell_mask(p: Seq<u8>) -> Seq<u8> {
    Seq::new(msm_cell_count(p), |k: int| if bit_at(p, 169 + k) == 1 { 1u8 } else { 0u8 })
}

/// Where the per-satellite fields start: after the cell mask.
pub open spec fn msm_satellite_start(p: Seq<u8>) -> int {
    169 + msm_cell_count(p) as int
}

/// Where the per-cell fields of flavour `t` start: after the per-satellite fields.
pub open spec fn msm_signal_start(p: Seq<u8>, t: MsmType) -> int {
    msm_satellite_start(p) + satellite_fields_bits(t, msm_satellite_count(p))
}

/// Number of cells that the cell mask marks as present.
pub open spec fn msm_cells_used(p: Seq<u8>) -> nat {
    ones_in(msm_cell_mask(p), msm_cell_count(p) as int)
}

/// Whether an MSM body of flavour `t` holds its header and every field that
/// its masks call for.
pub open spec fn msm_complete(p: Seq<u8>, t: MsmType) -> bool {
    &&& p.len() * 8 >= 169
    &&& signal_fields_end(msm_signal_start(p, t), t, msm_cells_used(p)) <= p.len() * 8
}

/// The satellites that a complete MSM body of flavour `t` describes.
pub open spec fn msm_satellites(p: Seq<u8>, t: MsmType) -> Seq<MsmSatelliteData> {
    satellite_fields(p, msm_satellite_start(p), t, mask64_ids(msm_satellite_mask(p), 64), msm_satellite_count(p))
}

/// The cells that a complete MSM body of flavour `t` describes.
pub open spec fn msm_signals(p: Seq<u8>, t: MsmType) -> Seq<MsmSignalData> {
    signal_fields(
        p,
        msm_signal_start(p, t),
        t,
        cell_positions(msm_cell_mask(p), msm_signal_count(p), msm_cell_count(p)),
    )
}

/// What decoding MSM message number `t` from `p` (the frame body after the
/// three header bytes, starting with the 12-bit message number) gives: for an MSM4-7 number of GPS, GLONASS, Galileo or
/// BeiDou and a body that holds every field, the message of that flavour and
/// system with the body's station, epoch, satellites and cells; a read
/// failure where the body ends early.
pub open spec fn msm_decoded(p: Seq<u8>, t: u16, r: Result<Rtcm3MessageType, MsmError>) -> bool {
    if !is_msm_type(t) {
        r == Err::<Rtcm3MessageType, MsmError>(MsmError::InvalidMessageType(t))
    } else if !msm_complete(p, msm_type_of(t)) {
        r == Err::<Rtcm3MessageType, MsmError>(MsmError::IoError(BitError::UnexpectedEof))
    } else {
        &&& r is Ok
        &&& msm_variant(r->Ok_0) == Some((msm_type_of(t), gnss_type_of(t)))
        &&& msm_content(r->Ok_0) == Some((
            msm_station(p),
            msm_epoch(p, gnss_type_of(t)),
            msm_satellites(p, msm_type_of(t)),
            msm_signals(p, msm_type_of(t)),
        ))
    }
}

/// A complete MSM4-7 body of GPS, GLONASS, Galileo or BeiDou decodes to the
/// message of its flavour and system, with one satellite record per
/// satellite that the satellite mask names and one cell record per cell that
/// the cell mask marks.
pub proof fn lemma_msm_decoded_counts(p: Seq<u8>, t: u16, m: Rtcm3MessageType)
    requires
        is_msm_type(t),
        msm_complete(p, msm_type_of(t)),
        msm_decoded(p, t, Ok::<Rtcm3MessageType, MsmError>(m)),
    ensures
        msm_variant(m) == Some((msm_type_of(t), gnss_type_of(t))),
        msm_content(m) is Some,
        msm_content(m)->Some_0.2.len() == msm_satellite_count(p),
        msm_content(m)->Some_0.3.len() == msm_cells_used(p),
{
    lemma_cell_positions_len(msm_cell_mask(p), msm_signal_count(p), msm_cell_count(p));
}

/// A bit-reader failure, as an MSM error.
fn msm_io<T>(r: Result<T, BitError>) -> (out: Result<T, MsmError>)
    ensures
        r is Ok ==> out == Ok::<T, MsmError>(r->Ok_0),
        r is Err ==> out == Err::<T, MsmError>(MsmError::IoError(r->Err_0)),
{
    match r {
        Ok(v) => Ok(v),
        Err(e) => Err(MsmError::IoError(e)),
    }
}

/// Decodes MSM message number `msg_type` from `payload`, the frame body after
/// the three header bytes (it starts with the 12-bit message number).
pub fn parse_msm(payload: &[u8], msg_type: u16) -> (r: Result<Rtcm3MessageType, MsmError>)
    requires
        payload@.len() * 8 + 10 <= usize::MAX,
    ensures
        msm_decoded(payload@, msg_type, r),
{
    if msg_type == 1074 || msg_type == 1084 || msg_type == 1094 || msg_type == 1124 {
        parse_msm4(payload, msg_type)
    } else if msg_type == 1075 || msg_type == 1085 || msg_type == 1095 || msg_type == 1125 {
        parse_msm5(payload, msg_type)
    } else if msg_type == 1076 || msg_type == 1086 || msg_type == 1096 || msg_type == 1126 {
        parse_msm6(payload, msg_type)
    } else if msg_type == 1077 || msg_type == 1087 || msg_type == 1097 || msg_type == 1127 {
        parse_msm7(payload, msg_type)
    } else {
        Err(MsmError::InvalidMessageType(msg_type))
    }
}

/// Decodes an MSM4 message.
fn parse_msm4(payload: &[u8], msg_type: u16) -> (r: Result<Rtcm3MessageType, MsmError>)
    requires
        payload@.len() * 8 + 10 <= usize::MAX,
        is_msm_type(msg_type),
        msm_type_of(msg_type) == MsmType::FullPseudoranges,
    ensures
        msm_decoded(payload@, msg_type, r),
{
    let mut bit_reader = BitReader::new(payload);
    let (header, satellites, signals) = parse_msm_common(&mut bit_reader, msg_type, MsmType::FullPseudoranges)?;
    create_msm_message(msg_type, header, satellites, signals)
}

/// Decodes an MSM5 message.
fn parse_msm5(payload: &[u8], msg_type: u16) -> (r: Result<Rtcm3MessageType, MsmError>)
    requires
        payload@.len() * 8 + 10 <= usize::MAX,
        is_msm_type(msg_type),
        msm_type_of(msg_type) == MsmType::FullPseudorangesRates,
    ensures
        msm_decoded(payload@, msg_type, r),
{
    let mut bit_reader = BitReader::new(payload);
    let (header, satellites, signals) = parse_msm_common(&mut bit_reader, msg_type, MsmType::FullPseudorangesRates)?;
    create_msm_message(msg_type, header, satellites, signals)
}

/// Decodes an MSM6 message.
fn parse_msm6(payload: &[u8], msg_type: u16) -> (r: Result<Rtcm3MessageType, MsmError>)
    requires
        payload@.len() * 8 + 10 <= usize::MAX,
        is_msm_type(msg_type),
        msm_type_of(msg_type) == MsmType::FullPhaserangesPseudoranges,
    ensures
        msm_decoded(payload@, msg_type, r),
{
    let mut bit_reader = BitReader::new(payload);
    let (header, satellites, signals) = parse_msm_common(
        &mut bit_reader,
        msg_type,
        MsmType::FullPhaserangesPseudoranges,
    )?;
    create_msm_message(msg_type, header, satellites, signals)
}

/// Decodes an MSM7 message.
fn parse_msm7(payload: &[u8], msg_type: u16) -> (r: Result<Rtcm3MessageType, MsmError>)
    requires
        payload@.len() * 8 + 10 <= usize::MAX,
        is_msm_type(msg_type),
        msm_type_of(msg_type) == MsmType::FullPhaserangesPseudorangesRates,
    ensures
        msm_decoded(payload@, msg_type, r),
{
    let mut bit_reader = BitReader::new(payload);
    let (header, satellites, signals) = parse_msm_common(
        &mut bit_reader,
        msg_type,
        MsmType::FullPhaserangesPseudorangesRates,
    )?;
    create_msm_message(msg_type, header, satellites, signals)
}

/// Number of set bits of a 64-bit mask.
fn count_mask64(mask: u64) -> (n: usize)
    ensures
        n == mask64_ids(mask, 64).len(),
        n <= 64,
{
    let mut n: usize = 0;
    let mut i: u64 = 0;
    while i < 64
        invariant
            i <= 64,
            n == mask64_ids(mask, i as nat).len(),
            n <= i,
        decreases 64 - i,
    {
        if (mask & (1u64 << i)) != 0 {
            n = n + 1;
        }
        i = i + 1;
    }
    n
}

/// Number of set bits of a 32-bit mask.
fn count_mask32(mask: u32) -> (n: usize)
    ensures
        n == mask32_ids(mask, 32).len(),
        n <= 32,
{
    let mut n: usize = 0;
    let mut i: u32 = 0;
    while i < 32
        invariant
            i <= 32,
            n == mask32_ids(mask, i as nat).len(),
            n <= i,
        decreases 32 - i,
    {
        if (mask & (1u32 << i)) != 0 {
            n = n + 1;
        }
        i = i + 1;
    }
    n
}

/// Reads a 64-bit mask one bit at a time, the first bit read as bit 0.
fn read_wire_mask64(bit_reader: &mut BitReader) -> (r: Result<u64, MsmError>)
    requires
        old(bit_reader).wf(),
    ensures
        final(bit_reader).wf(),
        final(bit_reader).data() == old(bit_reader).data(),
        old(bit_reader).pos() + 64 <= old(bit_reader).total_bits() ==> {
            &&& r == Ok::<u64, MsmError>(wire_mask64(old(bit_reader).data(), old(bit_reader).pos() as int, 64))
            &&& final(bit_reader).pos() == old(bit_reader).pos() + 64
        },
        old(bit_reader).pos() + 64 > old(bit_reader).total_bits() ==> r == Err::<u64, MsmError>(
            MsmError::IoError(BitError::UnexpectedEof),
        ),
{
    let ghost p = bit_reader.data();
    let ghost p0 = bit_reader.pos() as int;
    let mut mask: u64 = 0;
    let mut i: u64 = 0;
    while i < 64
        invariant
            bit_reader.wf(),
            bit_reader.data() == p,
            p == old(bit_reader).data(),
            p0 == old(bit_reader).pos(),
            i <= 64,
            bit_reader.pos() == p0 + i,
            mask == wire_mask64(p, p0, i as nat),
        decreases 64 - i,
    {
        let bit = msm_io(bit_reader.read_bit())?;
        if bit {
            mask = mask | (1u64 << i);
        }
        i = i + 1;
    }
    proof {
        bit_reader.lemma_pos_in_data();
    }
    Ok(mask)
}

/// Reads a 32-bit mask one bit at a time, the first bit read as bit 0.
fn read_wire_mask32(bit_reader: &mut BitReader) -> (r: Result<u32, MsmError>)
    requires
        old(bit_reader).wf(),
    ensures
        final(bit_reader).wf(),
        final(bit_reader).data() == old(bit_reader).data(),
        old(bit_reader).pos() + 32 <= old(bit_reader).total_bits() ==> {
            &&& r == Ok::<u32, MsmError>(wire_mask32(old(bit_reader).data(), old(bit_reader).pos() as int, 32))
            &&& final(bit_reader).pos() == old(bit_reader).pos() + 32
        },
        old(bit_reader).pos() + 32 > old(bit_reader).total_bits() ==> r == Err::<u32, MsmError>(
            MsmError::IoError(BitError::UnexpectedEof),
        ),
{
    let ghost p = bit_reader.data();
    let ghost p0 = bit_reader.pos() as int;
    let mut mask: u32 = 0;
    let mut i: u32 = 0;
    while i < 32
        invariant
            bit_reader.wf(),
            bit_reader.data() == p,
            p == old(bit_reader).data(),
            p0 == old(bit_reader).pos(),
            i <= 32,
            bit_reader.pos() == p0 + i,
            mask == wire_mask32(p, p0, i as nat),
        decreases 32 - i,
    {
        let bit = msm_io(bit_reader.read_bit())?;
        if bit {
            mask = mask | (1u32 << i);
        }
        i = i + 1;
    }
    proof {
        bit_reader.lemma_pos_in_data();
    }
    Ok(mask)
}

/// Reads the MSM header (message number, station, epoch, flags, clock and
/// smoothing fields, masks) and then the satellite and cell data.
fn parse_msm_common(bit_reader: &mut BitReader, msg_type: u16, msm_type: MsmType) -> (r: Result<
    (MsmHeader, Vec<MsmSatelliteData>, Vec<MsmSignalData>),
    MsmError,
>)
    requires
        old(bit_reader).wf(),
        old(bit_reader).total_bits() + 10 <= usize::MAX,
        old(bit_reader).pos() == 0,
        is_msm_type(msg_type),
        msm_type == msm_type_of(msg_type),
    ensures
        msm_complete(old(bit_reader).data(), msm_type) ==> {
            &&& r is Ok
            &&& r->Ok_0.0.station_id == msm_station(old(bit_reader).data())
            &&& r->Ok_0.0.gnss_type == gnss_type_of(msg_type)
            &&& r->Ok_0.0.msm_type == msm_type
            &&& r->Ok_0.0.epoch_time == msm_epoch(old(bit_reader).data(), gnss_type_of(msg_type))
            &&& r->Ok_0.1@ == msm_satellites(old(bit_reader).data(), msm_type)
            &&& r->Ok_0.2@ == msm_signals(old(bit_reader).data(), msm_type)
        },
        !msm_complete(old(bit_reader).data(), msm_type) ==> r == Err::<
            (MsmHeader, Vec<MsmSatelliteData>, Vec<MsmSignalData>),
            MsmError,
        >(MsmError::IoError(BitError::UnexpectedEof)),
{
    let ghost p = bit_reader.data();
    let ghost total = bit_reader.total_bits() as int;
    proof {
        lemma2_to64();
        bit_reader.lemma_pos_in_data();
    }
    let _message_number = msm_io(bit_reader.read_bits(12))?;
    let station_id = msm_io(bit_reader.read_bits(12))? as u16;
    let gnss_type = get_gnss_type(msg_type);
    let epoch_time = match gnss_type {
        GnssType::Glonass => {
            let dow = msm_io(bit_reader.read_bits(3))? as u8;
            let tod = msm_io(bit_reader.read_bits(27))?;
            MsmEpoch::GlonassDayTime { day_of_week: dow, ms: tod }
        },
        GnssType::Beidou => {
            let tow = msm_io(bit_reader.read_bits(30))?;
            MsmEpoch::BeidouTimeOfWeek { ms: tow }
        },
        _ => {
            let tow = msm_io(bit_reader.read_bits(30))?;
            MsmEpoch::TimeOfWeek { ms: tow }
        },
    };
    assert(epoch_time == msm_epoch(p, gnss_type_of(msg_type)));
    let multiple_message = msm_io(bit_reader.read_bit())?;
    let issue_of_data_station = msm_io(bit_reader.read_bits(3))? as u8;
    let _reserved = msm_io(bit_reader.read_bits(7))?;
    let _clock_steering = msm_io(bit_reader.read_bits(2))?;
    let _external_clock = msm_io(bit_reader.read_bits(2))?;
    let smooth_indicator: u8 = if msm_io(bit_reader.read_bit())? { 1 } else { 0 };
    let smooth_interval = msm_io(bit_reader.read_bits(3))? as u8;
    let satellite_mask = read_wire_mask64(bit_reader)?;
    let signal_mask = read_wire_mask32(bit_reader)?;
    let satellite_count = count_mask64(satellite_mask);
    let signal_count = count_mask32(signal_mask);
    proof {
        assert(satellite_count * signal_count <= 2048) by (nonlinear_arith)
            requires
                satellite_count <= 64,
                signal_count <= 32,
        ;
        lemma_signal_layout(msm_signal_start(p, msm_type), msm_type, msm_cells_used(p));
    }
    let cell_total = satellite_count * signal_count;
    let mut cell_mask: Vec<u8> = Vec::new();
    let mut c: usize = 0;
    while c < cell_total
        invariant
            bit_reader.wf(),
            bit_reader.data() == p,
            p == old(bit_reader).data(),
            total == p.len() * 8,
            cell_total == msm_cell_count(p),
            msm_complete(p, msm_type) ==> 169 + cell_total <= total,
            c <= cell_total,
            bit_reader.pos() == 169 + c,
            cell_mask@.len() == c,
            forall|k: int| 0 <= k < c ==> #[trigger] cell_mask@[k] == msm_cell_mask(p)[k],
        decreases cell_total - c,
    {
        let bit = msm_io(bit_reader.read_bit())?;
        cell_mask.push(if bit { 1 } else { 0 });
        c = c + 1;
    }
    proof {
        assert(cell_mask@ =~= msm_cell_mask(p));
    }
    let header = MsmHeader {
        station_id,
        gnss_type,
        msm_type,
        epoch_time,
        multiple_message,
        issue_of_data_station,
        smooth_indicator,
        smooth_interval,
        satellite_mask,
        signal_mask,
        cell_mask,
    };
    let satellites = parse_satellite_data(bit_reader, &header, satellite_count)?;
    let signals = parse_signal_data(bit_reader, &header, satellite_count, signal_count)?;
    Ok((header, satellites, signals))
}

/// Whether flavour `t` carries full (MSM4 to MSM7) fields.
pub open spec fn full_msm(t: MsmType) -> bool {
    t == MsmType::FullPseudoranges || t == MsmType::FullPseudorangesRates
        || t == MsmType::FullPhaserangesPseudoranges || t == MsmType::FullPhaserangesPseudorangesRates
}

/// Whether flavour `t` carries extended satellite information and phase
/// range rates (MSM5 and MSM7).
pub open spec fn msm_has_rates(t: MsmType) -> bool {
    t == MsmType::FullPseudorangesRates || t == MsmType::FullPhaserangesPseudorangesRates
}

/// Whether the flavour carries extended satellite information and phase
/// range rates (MSM5, MSM7).
fn msm_has_rates_exec(msm_type: MsmType) -> (r: bool)
    ensures
        r == msm_has_rates(msm_type),
{
    match msm_type {
        MsmType::FullPseudorangesRates | MsmType::FullPhaserangesPseudorangesRates => true,
        _ => false,
    }
}

/// How many bits the per-satellite fields of `n` satellites of an MSM4-7
/// flavour `t` take: 8-bit integer rough ranges, 4-bit extended information
/// (MSM5, MSM7), 10-bit fractional rough ranges and 14-bit phase range rates
/// (MSM5, MSM7).
pub open spec fn satellite_fields_bits(t: MsmType, n: nat) -> nat {
    8 * n + (if msm_has_rates(t) { 4 * n } else { 0 }) + 10 * n + (if msm_has_rates(t) { 14 * n } else { 0 })
}

/// The rough range, in units of 2^-10 ms, of integer milliseconds `int_ms`
/// and fraction `frac`: 0 where the integer part is 255 (invalid) or 0.
pub open spec fn rough_range(int_ms: nat, frac: nat) -> u32 {
    if int_ms == 255 || int_ms == 0 {
        0
    } else {
        (int_ms * 1024 + frac) as u32
    }
}

/// The rough range held after the integer parts are read: 0 where the
/// integer part is 255, the integer part in units of 2^-10 ms otherwise.
pub open spec fn rough_range_int(int_ms: nat) -> u32 {
    if int_ms == 255 {
        0
    } else {
        (int_ms * 1024) as u32
    }
}

/// The phase range rate of a satellite whose 14-bit field is `v`, where the
/// flavour carries rates and the field is not the invalid value -8192.
pub open spec fn phase_range_rate_of(t: MsmType, v: int) -> Option<i16> {
    if msm_has_rates(t) && v != -8192 {
        Some(v as i16)
    } else {
        None
    }
}

/// Where the fractional rough ranges of `n` satellites start, for fields
/// that start at bit `p0`.
pub open spec fn satellite_frac_base(p0: int, t: MsmType, n: nat) -> int {
    p0 + 8 * n + (if msm_has_rates(t) { 4 * n } else { 0 })
}

/// The per-satellite records that the fields of `n` satellites give, read
/// from bit `p0` of `data`, with the satellite numbers `ids`.
pub open spec fn satellite_fields(data: Seq<u8>, p0: int, t: MsmType, ids: Seq<u8>, n: nat) -> Seq<MsmSatelliteData> {
    let frac_at = satellite_frac_base(p0, t, n);
    let rate_at = frac_at + 10 * n;
    Seq::new(
        n,
        |k: int|
            MsmSatelliteData {
                satellite_id: ids[k],
                rough_range_ms: rough_range(bits_value(data, p0 + 8 * k, 8), bits_value(data, frac_at + 10 * k, 10)),
                phase_range_rate: phase_range_rate_of(t, bits_signed(data, rate_at + 14 * k, 14)),
            },
    )
}

/// Reads the per-satellite fields: integer rough ranges, extended
/// information (MSM5, MSM7), fractional rough ranges and phase range rates
/// (MSM5, MSM7). Fails with a read failure where the data ends before the
/// last of these fields.
fn parse_satellite_data(bit_reader: &mut BitReader, header: &MsmHeader, satellite_count: usize) -> (r: Result<
    Vec<MsmSatelliteData>,
    MsmError,
>)
    requires
        old(bit_reader).wf(),
        old(bit_reader).total_bits() + 10 <= usize::MAX,
        satellite_count == mask64_ids(header.satellite_mask, 64).len(),
    ensures
        final(bit_reader).wf(),
        final(bit_reader).data() == old(bit_reader).data(),
        r is Ok ==> r->Ok_0@.len() == satellite_count,
        old(bit_reader).pos() + satellite_fields_bits(header.msm_type, satellite_count as nat) <= old(bit_reader).total_bits() ==> {
            &&& r is Ok
            &&& r->Ok_0@ == satellite_fields(
                old(bit_reader).data(),
                old(bit_reader).pos() as int,
                header.msm_type,
                mask64_ids(header.satellite_mask, 64),
                satellite_count as nat,
            )
            &&& final(bit_reader).pos() == old(bit_reader).pos() + satellite_fields_bits(header.msm_type, satellite_count as nat)
        },
        old(bit_reader).pos() + satellite_fields_bits(header.msm_type, satellite_count as nat) > old(bit_reader).total_bits()
            ==> r == Err::<Vec<MsmSatelliteData>, MsmError>(MsmError::IoError(BitError::UnexpectedEof)),
{
    let ghost data = bit_reader.data();
    let ghost p0 = bit_reader.pos() as int;
    let ghost n = satellite_count as nat;
    let ghost t = header.msm_type;
    let ghost total = bit_reader.total_bits() as int;
    let ghost frac_at = satellite_frac_base(p0, t, n);
    let ghost rate_at = frac_at + 10 * n;
    let ghost len = satellite_fields_bits(t, n);
    proof {
        lemma2_to64();
        assert(rate_at + (if msm_has_rates(t) { 14 * n } else { 0 }) == p0 + len);
    }
    let satellite_ids = extract_satellite_ids(header.satellite_mask);
    let mut rough_ranges: Vec<u32> = Vec::new();
    let mut i: usize = 0;
    while i < satellite_count
        invariant
            bit_reader.wf(),
            bit_reader.data() == data,
            data == old(bit_reader).data(),
            total == bit_reader.total_bits(),
            p0 == old(bit_reader).pos(),
            n == satellite_count,
            i <= satellite_count,
            bit_reader.pos() == p0 + 8 * i,
            rough_ranges@.len() == i,
            forall|m: int| 0 <= m < i ==> #[trigger] rough_ranges@[m] == rough_range_int(bits_value(data, p0 + 8 * m, 8)),
        decreases satellite_count - i,
    {
        let ghost at = bit_reader.pos();
        let rng = msm_io(bit_reader.read_bits(8))?;
        proof {
            lemma2_to64();
            lemma_bits_value_bound(data, at as int, 8);
        }
        if rng != 255 {
            rough_ranges.push(rng * 1024);
        } else {
            rough_ranges.push(0);
        }
        i = i + 1;
    }
    if msm_has_rates_exec(header.msm_type) {
        let mut j: usize = 0;
        while j < satellite_count
            invariant
                bit_reader.wf(),
                bit_reader.data() == data,
                data == old(bit_reader).data(),
                total == bit_reader.total_bits(),
                p0 == old(bit_reader).pos(),
                n == satellite_count,
                msm_has_rates(t),
                j <= satellite_count,
                bit_reader.pos() == p0 + 8 * n + 4 * j,
            decreases satellite_count - j,
        {
            let _extended_info = msm_io(bit_reader.read_bits(4))?;
            j = j + 1;
        }
    }
    let mut k: usize = 0;
    while k < satellite_count
        invariant
            bit_reader.wf(),
            bit_reader.data() == data,
            data == old(bit_reader).data(),
            total == bit_reader.total_bits(),
            p0 == old(bit_reader).pos(),
            n == satellite_count,
            frac_at == satellite_frac_base(p0, t, n),
            t == header.msm_type,
            total + 10 <= usize::MAX,
            k <= satellite_count,
            bit_reader.pos() == frac_at + 10 * k,
            rough_ranges@.len() == satellite_count,
            forall|m: int| 0 <= m < k ==> #[trigger] rough_ranges@[m] == rough_range(
                bits_value(data, p0 + 8 * m, 8),
                bits_value(data, frac_at + 10 * m, 10),
            ),
            forall|m: int| k <= m < satellite_count ==> #[trigger] rough_ranges@[m] == rough_range_int(
                bits_value(data, p0 + 8 * m, 8),
            ),
        decreases satellite_count - k,
    {
        let ghost int_k = bits_value(data, p0 + 8 * k, 8);
        proof {
            lemma2_to64();
            lemma_bits_value_bound(data, p0 + 8 * k, 8);
        }
        if rough_ranges[k] != 0 {
            let ghost at = bit_reader.pos();
            let rng_m = msm_io(bit_reader.read_bits(10))?;
            proof {
                lemma2_to64();
                lemma_bits_value_bound(data, at as int, 10);
            }
            let v = rough_ranges[k] + rng_m;
            rough_ranges.set(k, v);
        } else {
            proof {
                bit_reader.lemma_pos_in_data();
            }
            msm_io(bit_reader.skip_bits(10))?;
        }
        k = k + 1;
    }
    let with_rates = msm_has_rates_exec(header.msm_type);
    let mut phase_range_rates: Vec<Option<i16>> = Vec::new();
    let mut m: usize = 0;
    while m < satellite_count
        invariant
            bit_reader.wf(),
            bit_reader.data() == data,
            data == old(bit_reader).data(),
            total == bit_reader.total_bits(),
            n == satellite_count,
            t == header.msm_type,
            with_rates == msm_has_rates(t),
            p0 == old(bit_reader).pos(),
            total == old(bit_reader).total_bits(),
            len == satellite_fields_bits(t, n),
            with_rates ==> rate_at + 14 * n == p0 + len,
            !with_rates ==> rate_at == p0 + len,
            m <= satellite_count,
            with_rates ==> bit_reader.pos() == rate_at + 14 * m,
            !with_rates ==> bit_reader.pos() == rate_at,
            phase_range_rates@.len() == m,
            forall|q: int| 0 <= q < m ==> #[trigger] phase_range_rates@[q] == phase_range_rate_of(
                t,
                bits_signed(data, rate_at + 14 * q, 14),
            ),
        decreases satellite_count - m,
    {
        if with_rates {
            let ghost at = bit_reader.pos();
            let rate = msm_io(bit_reader.read_bits_signed(14))?;
            proof {
                lemma2_to64();
                lemma_bits_value_bound(data, at as int, 14);
                lemma_bits_signed_bound(data, at as int, 14);
            }
            if rate != -8192 {
                phase_range_rates.push(Some(rate as i16));
            } else {
                phase_range_rates.push(None);
            }
        } else {
            phase_range_rates.push(None);
        }
        m = m + 1;
    }
    let mut satellites: Vec<MsmSatelliteData> = Vec::new();
    let mut q: usize = 0;
    while q < satellite_count
        invariant
            q <= satellite_count,
            satellites@.len() == q,
            satellite_ids@ == mask64_ids(header.satellite_mask, 64),
            satellite_ids@.len() == satellite_count,
            rough_ranges@.len() == satellite_count,
            phase_range_rates@.len() == satellite_count,
            forall|x: int| 0 <= x < q ==> #[trigger] satellites@[x] == (MsmSatelliteData {
                satellite_id: satellite_ids@[x],
                rough_range_ms: rough_ranges@[x],
                phase_range_rate: phase_range_rates@[x],
            }),
        decreases satellite_count - q,
    {
        satellites.push(MsmSatelliteData {
            satellite_id: satellite_ids[q],
            rough_range_ms: rough_ranges[q],
            phase_range_rate: phase_range_rates[q],
        });
        q = q + 1;
    }
    proof {
        assert(satellites@ =~= satellite_fields(data, p0, t, mask64_ids(header.satellite_mask, 64), n));
        bit_reader.lemma_pos_in_data();
    }
    Ok(satellites)
}

/// Number of entries equal to 1 among the first `n` of `s`.
pub open spec fn ones_in(s: Seq<u8>, n: int) -> nat
    decreases n,
{
    if n <= 0 {
        0
    } else {
        ones_in(s, n - 1) + if s[n - 1] == 1 { 1nat } else { 0nat }
    }
}

/// Whether flavour `t` carries pseudoranges (all but MSM2).
pub open spec fn msm_has_pseudoranges(t: MsmType) -> bool {
    t != MsmType::CompactPhaseRangeRate
}

/// Whether flavour `t` carries phase ranges, lock times and half-cycle
/// indicators (all but MSM1 and MSM2).
pub open spec fn msm_has_phaseranges(t: MsmType) -> bool {
    t != MsmType::Compact && t != MsmType::CompactPhaseRangeRate
}

/// Whether flavour `t` carries high-resolution phase ranges (MSM6, MSM7).
pub open spec fn msm_high_phase(t: MsmType) -> bool {
    t == MsmType::FullPhaserangesPseudoranges || t == MsmType::FullPhaserangesPseudorangesRates
}

/// Width of a fine pseudorange field.
pub open spec fn pseudorange_width(t: MsmType) -> nat {
    if msm_high_phase(t) { 20 } else { 15 }
}

/// The value that marks a fine pseudorange as invalid.
pub open spec fn pseudorange_invalid(t: MsmType) -> int {
    if msm_high_phase(t) { -524288 } else { -16384 }
}

/// Width of a fine phase range field.
pub open spec fn phaserange_width(t: MsmType) -> nat {
    if msm_high_phase(t) { 24 } else { 22 }
}

/// The value that marks a fine phase range as invalid.
pub open spec fn phaserange_invalid(t: MsmType) -> int {
    if msm_high_phase(t) { -8388608 } else { -2097152 }
}

/// Width of a lock time indicator field.
pub open spec fn lock_width(t: MsmType) -> nat {
    if msm_high_phase(t) { 10 } else { 4 }
}

/// Width of a CNR field.
pub open spec fn cnr_width(t: MsmType) -> nat {
    if msm_high_phase(t) { 10 } else { 6 }
}

/// Where field `i` of a run of `width`-bit fields that starts at `base` starts.
pub open spec fn field_at(base: int, width: nat, i: int) -> int {
    base + width * i
}

/// The next field of a run starts one width further on.
proof fn lemma_field_step(base: int, width: nat, i: int)
    ensures
        field_at(base, width, i + 1) == field_at(base, width, i) + width,
{
    assert(width * (i + 1) == width * i + width) by (nonlinear_arith);
}

/// Later fields of a run start no earlier.
proof fn lemma_field_mono(base: int, width: nat, i: int, j: int)
    requires
        i <= j,
    ensures
        field_at(base, width, i) <= field_at(base, width, j),
{
    assert(width * i <= width * j) by (nonlinear_arith)
        requires
            i <= j,
    ;
}

/// Where the phase ranges of `m` cells start, for cell fields from bit `p0`.
pub open spec fn phase_base(p0: int, t: MsmType, m: nat) -> int {
    if msm_has_pseudoranges(t) {
        field_at(p0, pseudorange_width(t), m as int)
    } else {
        p0
    }
}

/// Where the lock time indicators start.
pub open spec fn lock_base(p0: int, t: MsmType, m: nat) -> int {
    field_at(phase_base(p0, t, m), phaserange_width(t), m as int)
}

/// Where the half-cycle indicators start.
pub open spec fn half_base(p0: int, t: MsmType, m: nat) -> int {
    field_at(lock_base(p0, t, m), lock_width(t), m as int)
}

/// Where the CNRs start.
pub open spec fn cnr_base(p0: int, t: MsmType, m: nat) -> int {
    if msm_has_phaseranges(t) {
        half_base(p0, t, m) + m
    } else {
        phase_base(p0, t, m)
    }
}

/// Where the fine phase range rates (MSM5, MSM7) start.
pub open spec fn cell_rate_base(p0: int, t: MsmType, m: nat) -> int {
    field_at(cnr_base(p0, t, m), cnr_width(t), m as int)
}

/// Where the cell fields of `m` cells end: after the 15-bit fine phase range
/// rates of MSM5 and MSM7, which the decoded cells do not keep.
pub open spec fn signal_fields_end(p0: int, t: MsmType, m: nat) -> int {
    cell_rate_base(p0, t, m) + if msm_has_rates(t) { 15 * m } else { 0 }
}

/// The sections of the cell fields follow one another.
proof fn lemma_signal_layout(p0: int, t: MsmType, m: nat)
    ensures
        p0 <= phase_base(p0, t, m),
        phase_base(p0, t, m) <= lock_base(p0, t, m),
        lock_base(p0, t, m) <= half_base(p0, t, m),
        phase_base(p0, t, m) <= cnr_base(p0, t, m),
        cnr_base(p0, t, m) <= cell_rate_base(p0, t, m),
        cell_rate_base(p0, t, m) <= signal_fields_end(p0, t, m),
{
    lemma_field_mono(p0, pseudorange_width(t), 0, m as int);
    lemma_field_mono(phase_base(p0, t, m), phaserange_width(t), 0, m as int);
    lemma_field_mono(lock_base(p0, t, m), lock_width(t), 0, m as int);
    lemma_field_mono(cnr_base(p0, t, m), cnr_width(t), 0, m as int);
}

/// A fine range field at `at`: its value unless it is the invalid value.
pub open spec fn fine_value(data: Seq<u8>, at: int, width: nat, invalid: int) -> Option<i32> {
    if bits_signed(data, at, width) != invalid {
        Some(bits_signed(data, at, width) as i32)
    } else {
        None
    }
}

/// The fine pseudorange of cell `i`.
pub open spec fn pseudorange_of(data: Seq<u8>, p0: int, t: MsmType, i: int) -> Option<i32> {
    if msm_has_pseudoranges(t) {
        fine_value(data, field_at(p0, pseudorange_width(t), i), pseudorange_width(t), pseudorange_invalid(t))
    } else {
        None
    }
}

/// The fine phase range of cell `i` of `m`.
pub open spec fn phaserange_of(data: Seq<u8>, p0: int, t: MsmType, m: nat, i: int) -> Option<i32> {
    if msm_has_phaseranges(t) {
        fine_value(data, field_at(phase_base(p0, t, m), phaserange_width(t), i), phaserange_width(t), phaserange_invalid(t))
    } else {
        None
    }
}

/// The lock time indicator (its low eight bits) of cell `i` of `m`.
pub open spec fn lock_of(data: Seq<u8>, p0: int, t: MsmType, m: nat, i: int) -> Option<u8> {
    if msm_has_phaseranges(t) {
        Some(bits_value(data, field_at(lock_base(p0, t, m), lock_width(t), i), lock_width(t)) as u8)
    } else {
        None
    }
}

/// The half-cycle indicator of cell `i` of `m`.
pub open spec fn half_cycle_of(data: Seq<u8>, p0: int, t: MsmType, m: nat, i: int) -> Option<bool> {
    if msm_has_phaseranges(t) {
        Some(bit_at(data, half_base(p0, t, m) + i) == 1)
    } else {
        None
    }
}

/// The CNR of cell `i` of `m`.
pub open spec fn cnr_of(data: Seq<u8>, p0: int, t: MsmType, m: nat, i: int) -> u16 {
    bits_value(data, field_at(cnr_base(p0, t, m), cnr_width(t), i), cnr_width(t)) as u16
}

/// The satellite and signal index of each set entry among the first `n` of
/// a cell mask with `sc` signals per satellite, in order.
pub open spec fn cell_positions(mask: Seq<u8>, sc: nat, n: nat) -> Seq<(usize, usize)>
    decreases n,
{
    if n == 0 {
        Seq::empty()
    } else if mask[n - 1] == 1 {
        cell_positions(mask, sc, (n - 1) as nat).push((((n - 1) / sc as int) as usize, ((n - 1) % sc as int) as usize))
    } else {
        cell_positions(mask, sc, (n - 1) as nat)
    }
}

/// There is one position per set entry.
proof fn lemma_cell_positions_len(mask: Seq<u8>, sc: nat, n: nat)
    ensures
        cell_positions(mask, sc, n).len() == ones_in(mask, n as int),
    decreases n,
{
    if n > 0 {
        lemma_cell_positions_len(mask, sc, (n - 1) as nat);
    }
}

/// The per-cell records that the cell fields give, read from bit `p0` of
/// `data`, for the cells at `cells`.
pub open spec fn signal_fields(data: Seq<u8>, p0: int, t: MsmType, cells: Seq<(usize, usize)>) -> Seq<MsmSignalData> {
    let m = cells.len();
    Seq::new(
        m,
        |i: int|
            MsmSignalData {
                satellite_index: cells[i].0 as u8,
                signal_index: cells[i].1 as u8,
                fine_pseudorange: pseudorange_of(data, p0, t, i),
                fine_phaserange: phaserange_of(data, p0, t, m, i),
                lock_time_indicator: lock_of(data, p0, t, m, i),
                half_cycle_ambiguity: half_cycle_of(data, p0, t, m, i),
                cnr: Some(cnr_of(data, p0, t, m, i)),
            },
    )
}

/// Reads the per-cell fields of an MSM4-7 message, each kind for all cells in
/// turn: pseudoranges, phase ranges, lock time indicators, half-cycle
/// indicators and CNRs, then (MSM5, MSM7) the fine phase range rates, which
/// are passed over. Fails with a read failure where the data ends before the
/// last of these fields.
fn parse_signal_data(
    bit_reader: &mut BitReader,
    header: &MsmHeader,
    satellite_count: usize,
    signal_count: usize,
) -> (r: Result<Vec<MsmSignalData>, MsmError>)
    requires
        old(bit_reader).wf(),
        full_msm(header.msm_type),
        satellite_count <= 64,
        signal_count <= 32,
        header.cell_mask@.len() == satellite_count * signal_count,
    ensures
        final(bit_reader).wf(),
        final(bit_reader).data() == old(bit_reader).data(),
        r is Ok ==> r->Ok_0@.len() == ones_in(header.cell_mask@, header.cell_mask@.len() as int),
        signal_fields_end(
            old(bit_reader).pos() as int,
            header.msm_type,
            ones_in(header.cell_mask@, header.cell_mask@.len() as int),
        ) <= old(bit_reader).total_bits() ==> {
            &&& r is Ok
            &&& r->Ok_0@ == signal_fields(
                old(bit_reader).data(),
                old(bit_reader).pos() as int,
                header.msm_type,
                cell_positions(header.cell_mask@, signal_count as nat, header.cell_mask@.len()),
            )
            &&& final(bit_reader).pos() == signal_fields_end(
                old(bit_reader).pos() as int,
                header.msm_type,
                ones_in(header.cell_mask@, header.cell_mask@.len() as int),
            )
        },
        signal_fields_end(
            old(bit_reader).pos() as int,
            header.msm_type,
            ones_in(header.cell_mask@, header.cell_mask@.len() as int),
        ) > old(bit_reader).total_bits() ==> r == Err::<Vec<MsmSignalData>, MsmError>(
            MsmError::IoError(BitError::UnexpectedEof),
        ),
{
    let ghost data = bit_reader.data();
    let ghost mask = header.cell_mask@;
    let ghost p0 = bit_reader.pos() as int;
    let ghost t = header.msm_type;
    let ghost total = bit_reader.total_bits() as int;
    proof {
        lemma2_to64();
        assert(satellite_count * signal_count <= 2048) by (nonlinear_arith)
            requires satellite_count <= 64, signal_count <= 32;
    }
    let mut cell_count: usize = 0;
    let mut c: usize = 0;
    while c < header.cell_mask.len()
        invariant
            c <= mask.len(),
            mask == header.cell_mask@,
            mask.len() <= 2048,
            cell_count == ones_in(mask, c as int),
            cell_count <= c,
        decreases mask.len() - c,
    {
        if header.cell_mask[c] == 1 {
            cell_count = cell_count + 1;
        }
        c = c + 1;
    }
    let ghost m = cell_count as nat;
    proof {
        lemma_signal_layout(p0, t, m);
    }
    let _signal_ids = extract_signal_ids(header.signal_mask);
    let high_phase = match header.msm_type {
        MsmType::FullPhaserangesPseudoranges | MsmType::FullPhaserangesPseudorangesRates => true,
        _ => false,
    };
    let (pseudorange_bits, pseudorange_invalid_value): (usize, i32) = if high_phase {
        (20, -524288)
    } else {
        (15, -16384)
    };
    let (phaserange_bits, phaserange_invalid_value): (usize, i32) = if high_phase {
        (24, -8388608)
    } else {
        (22, -2097152)
    };
    let has_pseudoranges = match header.msm_type {
        MsmType::CompactPhaseRangeRate => false,
        _ => true,
    };
    let has_phaseranges = match header.msm_type {
        MsmType::Compact | MsmType::CompactPhaseRangeRate => false,
        _ => true,
    };
    let mut cell_indices: Vec<(usize, usize)> = Vec::new();
    let mut idx: usize = 0;
    let mut sat_idx: usize = 0;
    while sat_idx < satellite_count
        invariant
            satellite_count <= 64,
            signal_count <= 32,
            mask == header.cell_mask@,
            mask.len() == satellite_count * signal_count,
            sat_idx <= satellite_count,
            idx == sat_idx * signal_count,
            cell_indices@ == cell_positions(mask, signal_count as nat, idx as nat),
            forall|k: int| 0 <= k < cell_indices@.len() ==> (#[trigger] cell_indices@[k]).0 < 64
                && cell_indices@[k].1 < 32,
        decreases satellite_count - sat_idx,
    {
        let mut sig_idx: usize = 0;
        proof {
            assert(sat_idx * signal_count + signal_count <= satellite_count * signal_count) by (nonlinear_arith)
                requires sat_idx < satellite_count;
        }
        while sig_idx < signal_count
            invariant
                satellite_count <= 64,
                signal_count <= 32,
                mask == header.cell_mask@,
                mask.len() == satellite_count * signal_count,
                sat_idx < satellite_count,
                sat_idx * signal_count + signal_count <= mask.len(),
                sig_idx <= signal_count,
                idx == sat_idx * signal_count + sig_idx,
                cell_indices@ == cell_positions(mask, signal_count as nat, idx as nat),
                forall|k: int| 0 <= k < cell_indices@.len() ==> (#[trigger] cell_indices@[k]).0 < 64
                    && cell_indices@[k].1 < 32,
            decreases signal_count - sig_idx,
        {
            proof {
                vstd::arithmetic::div_mod::lemma_fundamental_div_mod_converse(
                    idx as int,
                    signal_count as int,
                    sat_idx as int,
                    sig_idx as int,
                );
            }
            if idx < header.cell_mask.len() && header.cell_mask[idx] == 1 {
                cell_indices.push((sat_idx, sig_idx));
            }
            idx = idx + 1;
            sig_idx = sig_idx + 1;
        }
        sat_idx = sat_idx + 1;
        proof {
            assert(idx == sat_idx * signal_count) by (nonlinear_arith)
                requires idx == (sat_idx - 1) * signal_count + signal_count;
        }
    }
    proof {
        lemma_cell_positions_len(mask, signal_count as nat, mask.len());
    }
    let mut pseudoranges: Vec<Option<i32>> = Vec::new();
    let mut phaseranges: Vec<Option<i32>> = Vec::new();
    let mut lock_indicators: Vec<Option<u8>> = Vec::new();
    let mut half_cycles: Vec<Option<bool>> = Vec::new();
    let mut cnrs: Vec<Option<u16>> = Vec::new();
    let mut i: usize = 0;
    while i < cell_count
        invariant
            i <= cell_count,
            pseudoranges@.len() == i,
            phaseranges@.len() == i,
            lock_indicators@.len() == i,
            half_cycles@.len() == i,
            cnrs@.len() == i,
            forall|j: int| 0 <= j < i ==> #[trigger] pseudoranges@[j] == None::<i32>,
            forall|j: int| 0 <= j < i ==> #[trigger] phaseranges@[j] == None::<i32>,
            forall|j: int| 0 <= j < i ==> #[trigger] lock_indicators@[j] == None::<u8>,
            forall|j: int| 0 <= j < i ==> #[trigger] half_cycles@[j] == None::<bool>,
        decreases cell_count - i,
    {
        pseudoranges.push(None);
        phaseranges.push(None);
        lock_indicators.push(None);
        half_cycles.push(None);
        cnrs.push(None);
        i = i + 1;
    }
    if has_pseudoranges {
        let mut i: usize = 0;
        while i < cell_count
            invariant
                bit_reader.wf(),
                bit_reader.data() == data,
                i <= cell_count,
                data == old(bit_reader).data(),
                p0 == old(bit_reader).pos(),
                total == old(bit_reader).total_bits(),
                t == header.msm_type,
                m == cell_count,
                m == ones_in(header.cell_mask@, header.cell_mask@.len() as int),
                p0 <= phase_base(p0, t, m) <= lock_base(p0, t, m) <= half_base(p0, t, m),
                phase_base(p0, t, m) <= cnr_base(p0, t, m) <= signal_fields_end(p0, t, m),
                has_pseudoranges == msm_has_pseudoranges(t),
                has_pseudoranges,
                pseudorange_bits == pseudorange_width(t),
                pseudorange_invalid_value == pseudorange_invalid(t),
                bit_reader.pos() == field_at(p0, pseudorange_width(t), i as int),
                pseudoranges@.len() == cell_count,
                forall|j: int| 0 <= j < i ==> #[trigger] pseudoranges@[j] == pseudorange_of(data, p0, t, j),
                forall|j: int| i <= j < cell_count ==> #[trigger] pseudoranges@[j] == None::<i32>,
            decreases cell_count - i,
        {
            let ghost at = bit_reader.pos() as int;
            proof {
                lemma_field_step(p0, pseudorange_width(t), i as int);
                lemma_field_mono(p0, pseudorange_width(t), i + 1, m as int);
                lemma_bits_signed_bound(data, at, pseudorange_bits as nat);
            }
            let prv = msm_io(bit_reader.read_bits_signed(pseudorange_bits))?;
            if prv != pseudorange_invalid_value {
                pseudoranges.set(i, Some(prv));
            }
            i = i + 1;
        }
    }
    assert(bit_reader.pos() == phase_base(p0, t, m));
    if has_phaseranges {
        let mut i: usize = 0;
        while i < cell_count
            invariant
                bit_reader.wf(),
                bit_reader.data() == data,
                i <= cell_count,
                data == old(bit_reader).data(),
                p0 == old(bit_reader).pos(),
                total == old(bit_reader).total_bits(),
                t == header.msm_type,
                m == cell_count,
                m == ones_in(header.cell_mask@, header.cell_mask@.len() as int),
                p0 <= phase_base(p0, t, m) <= lock_base(p0, t, m) <= half_base(p0, t, m),
                phase_base(p0, t, m) <= cnr_base(p0, t, m) <= signal_fields_end(p0, t, m),
                has_phaseranges == msm_has_phaseranges(t),
                has_phaseranges,
                phaserange_bits == phaserange_width(t),
                phaserange_invalid_value == phaserange_invalid(t),
                bit_reader.pos() == field_at(phase_base(p0, t, m), phaserange_width(t), i as int),
                phaseranges@.len() == cell_count,
                forall|j: int| 0 <= j < i ==> #[trigger] phaseranges@[j] == phaserange_of(data, p0, t, m, j),
                forall|j: int| i <= j < cell_count ==> #[trigger] phaseranges@[j] == None::<i32>,
            decreases cell_count - i,
        {
            let ghost at = bit_reader.pos() as int;
            proof {
                lemma_field_step(phase_base(p0, t, m), phaserange_width(t), i as int);
                lemma_field_mono(phase_base(p0, t, m), phaserange_width(t), i + 1, m as int);
                lemma_bits_signed_bound(data, at, phaserange_bits as nat);
            }
            let cpv = msm_io(bit_reader.read_bits_signed(phaserange_bits))?;
            if cpv != phaserange_invalid_value {
                phaseranges.set(i, Some(cpv));
            }
            i = i + 1;
        }
        let lock_bits: usize = if high_phase { 10 } else { 4 };
        let mut i: usize = 0;
        while i < cell_count
            invariant
                bit_reader.wf(),
                bit_reader.data() == data,
                i <= cell_count,
                data == old(bit_reader).data(),
                p0 == old(bit_reader).pos(),
                total == old(bit_reader).total_bits(),
                t == header.msm_type,
                m == cell_count,
                m == ones_in(header.cell_mask@, header.cell_mask@.len() as int),
                p0 <= phase_base(p0, t, m) <= lock_base(p0, t, m) <= half_base(p0, t, m),
                phase_base(p0, t, m) <= cnr_base(p0, t, m) <= signal_fields_end(p0, t, m),
                has_phaseranges,
                msm_has_phaseranges(t),
                lock_bits == lock_width(t),
                bit_reader.pos() == field_at(lock_base(p0, t, m), lock_width(t), i as int),
                lock_indicators@.len() == cell_count,
                forall|j: int| 0 <= j < i ==> #[trigger] lock_indicators@[j] == lock_of(data, p0, t, m, j),
            decreases cell_count - i,
        {
            proof {
                lemma_field_step(lock_base(p0, t, m), lock_width(t), i as int);
                lemma_field_mono(lock_base(p0, t, m), lock_width(t), i + 1, m as int);
            }
            let lock = msm_io(bit_reader.read_bits(lock_bits))?;
            lock_indicators.set(i, Some(lock as u8));
            i = i + 1;
        }
        let mut i: usize = 0;
        while i < cell_count
            invariant
                bit_reader.wf(),
                bit_reader.data() == data,
                i <= cell_count,
                data == old(bit_reader).data(),
                p0 == old(bit_reader).pos(),
                total == old(bit_reader).total_bits(),
                t == header.msm_type,
                m == cell_count,
                m == ones_in(header.cell_mask@, header.cell_mask@.len() as int),
                p0 <= phase_base(p0, t, m) <= lock_base(p0, t, m) <= half_base(p0, t, m),
                phase_base(p0, t, m) <= cnr_base(p0, t, m) <= signal_fields_end(p0, t, m),
                has_phaseranges,
                msm_has_phaseranges(t),
                bit_reader.pos() == half_base(p0, t, m) + i,
                half_cycles@.len() == cell_count,
                forall|j: int| 0 <= j < i ==> #[trigger] half_cycles@[j] == half_cycle_of(data, p0, t, m, j),
            decreases cell_count - i,
        {
            let half = msm_io(bit_reader.read_bit())?;
            half_cycles.set(i, Some(half));
            i = i + 1;
        }
    }
    assert(bit_reader.pos() == cnr_base(p0, t, m));
    let cnr_bits: usize = if high_phase { 10 } else { 6 };
    let mut i: usize = 0;
    while i < cell_count
        invariant
            bit_reader.wf(),
            bit_reader.data() == data,
            data == old(bit_reader).data(),
            p0 == old(bit_reader).pos(),
            total == old(bit_reader).total_bits(),
            t == header.msm_type,
            m == cell_count,
            m == ones_in(header.cell_mask@, header.cell_mask@.len() as int),
            p0 <= phase_base(p0, t, m) <= lock_base(p0, t, m) <= half_base(p0, t, m),
            phase_base(p0, t, m) <= cnr_base(p0, t, m) <= signal_fields_end(p0, t, m),
            cnr_bits == cnr_width(t),
            cnr_bits <= 10,
            i <= cell_count,
            bit_reader.pos() == field_at(cnr_base(p0, t, m), cnr_width(t), i as int),
            cnrs@.len() == cell_count,
            forall|j: int| 0 <= j < i ==> #[trigger] cnrs@[j] == Some(cnr_of(data, p0, t, m, j)),
        decreases cell_count - i,
    {
        let ghost at = bit_reader.pos();
        proof {
            lemma_field_step(cnr_base(p0, t, m), cnr_width(t), i as int);
            lemma_field_mono(cnr_base(p0, t, m), cnr_width(t), i + 1, m as int);
        }
        let cnr_val = msm_io(bit_reader.read_bits(cnr_bits))?;
        proof {
            lemma2_to64();
            lemma_bits_value_bound(data, at as int, cnr_bits as nat);
            if cnr_bits < 10 {
                vstd::arithmetic::power2::lemma_pow2_strictly_increases(cnr_bits as nat, 10);
            }
        }
        cnrs.set(i, Some(cnr_val as u16));
        i = i + 1;
    }
    assert(bit_reader.pos() == cell_rate_base(p0, t, m));
    if msm_has_rates_exec(header.msm_type) {
        let mut i: usize = 0;
        while i < cell_count
            invariant
                bit_reader.wf(),
                bit_reader.data() == data,
                data == old(bit_reader).data(),
                p0 == old(bit_reader).pos(),
                total == old(bit_reader).total_bits(),
                t == header.msm_type,
                msm_has_rates(t),
                m == cell_count,
                m == ones_in(header.cell_mask@, header.cell_mask@.len() as int),
                i <= cell_count,
                bit_reader.pos() == cell_rate_base(p0, t, m) + 15 * i,
            decreases cell_count - i,
        {
            let _fine_rate = msm_io(bit_reader.read_bits_signed(15))?;
            i = i + 1;
        }
    }
    let mut signals: Vec<MsmSignalData> = Vec::new();
    let mut i: usize = 0;
    while i < cell_count
        invariant
            i <= cell_count,
            cell_count == ones_in(mask, mask.len() as int),
            cell_indices@.len() == cell_count,
            signals@.len() == i,
            pseudoranges@.len() == cell_count,
            phaseranges@.len() == cell_count,
            lock_indicators@.len() == cell_count,
            half_cycles@.len() == cell_count,
            cnrs@.len() == cell_count,
            forall|x: int| 0 <= x < i ==> #[trigger] signals@[x] == (MsmSignalData {
                satellite_index: cell_indices@[x].0 as u8,
                signal_index: cell_indices@[x].1 as u8,
                fine_pseudorange: pseudoranges@[x],
                fine_phaserange: phaseranges@[x],
                lock_time_indicator: lock_indicators@[x],
                half_cycle_ambiguity: half_cycles@[x],
                cnr: cnrs@[x],
            }),
        decreases cell_count - i,
    {
        let (s_idx, g_idx) = cell_indices[i];
        signals.push(MsmSignalData {
            satellite_index: s_idx as u8,
            signal_index: g_idx as u8,
            fine_pseudorange: pseudoranges[i],
            fine_phaserange: phaseranges[i],
            lock_time_indicator: lock_indicators[i],
            half_cycle_ambiguity: half_cycles[i],
            cnr: cnrs[i],
        });
        i = i + 1;
    }
    proof {
        assert(signals@ =~= signal_fields(data, p0, t, cell_positions(mask, signal_count as nat, mask.len())));
        bit_reader.lemma_pos_in_data();
    }
    Ok(signals)
}

} // verus!
