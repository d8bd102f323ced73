//! RTCM stream decoding, and the context that follows a mixed RTCM 2 / RTCM 3
//! stream and keeps what its messages say about the reference station and the
//! broadcast ephemerides.

pub mod crc24q;
pub mod msm;
pub mod rtcm2;
pub mod rtcm3;

use std::collections::HashMap;
use vstd::prelude::*;
use crate::util::bits::BitError;
use self::msm::{msm_content, msm_variant};
use self::rtcm2::{Rtcm2Error, Rtcm2Message, Rtcm2MessageType, Rtcm2Parser};
use self::rtcm3::{Rtcm3Error, Rtcm3MessageType, Rtcm3Parser};

verus! {

broadcast use vstd::std_specs::hash::group_hash_axioms;

/// A message delivered by the stream context.
#[derive(Debug, Clone)]
pub enum RtcmMessageType {
    /// An RTCM 2 message, by its type.
    Rtcm2(Rtcm2MessageType),
    /// A decoded RTCM 3 message.
    Rtcm3(Rtcm3MessageType),
    /// A message of an unknown number.
    Unknown(u16),
}

/// Why the stream context could not deliver a message.
#[derive(Debug, Clone)]
pub enum RtcmError {
    /// The message layout was not valid.
    InvalidFormat,
    /// A checksum did not match.
    ChecksumError,
    /// The message number is not supported.
    UnsupportedType(u16),
    /// The RTCM 2 synchroniser reported an error.
    Rtcm2Error(Rtcm2Error),
    /// The RTCM 3 synchroniser reported an error.
    Rtcm3Error(Rtcm3Error),
    /// A field could not be read.
    IoError(BitError),
    /// Anything else.
    Other(String),
}

/// The ephemerides filed under `key` in `m`, oldest first (empty where none is).
pub open spec fn nav_list(m: Map<u8, Vec<Rtcm3MessageType>>, key: u8) -> Seq<Rtcm3MessageType> {
    if m.contains_key(key) {
        m[key]@
    } else {
        Seq::empty()
    }
}

/// Whether `m` is a GPS ephemeris of satellite `prn`.
pub open spec fn is_gps_ephemeris_of(m: Rtcm3MessageType, prn: u8) -> bool {
    m matches Rtcm3MessageType::GpsEphemeris { prn: p, .. } && p == prn
}

/// Whether `m` is a GLONASS ephemeris of slot `slot`.
pub open spec fn is_glonass_ephemeris_of(m: Rtcm3MessageType, slot: u8) -> bool {
    m matches Rtcm3MessageType::GlonassEphemeris { slot: s, .. } && s == slot
}

/// The number of ephemerides filed under the keys below `n`.
pub open spec fn nav_count_below(m: Map<u8, Vec<Rtcm3MessageType>>, n: nat) -> nat
    decreases n,
{
    if n == 0 {
        0
    } else {
        nav_count_below(m, (n - 1) as nat) + nav_list(m, (n - 1) as u8).len()
    }
}

/// The number of ephemerides filed in `m`, over all keys.
pub open spec fn nav_count(m: Map<u8, Vec<Rtcm3MessageType>>) -> nat {
    nav_count_below(m, 256)
}

/// Counting over more keys gives no fewer ephemerides.
proof fn lemma_nav_count_grows(m: Map<u8, Vec<Rtcm3MessageType>>, a: nat, b: nat)
    requires
        a <= b,
    ensures
        nav_count_below(m, a) <= nav_count_below(m, b),
    decreases b,
{
    if a < b {
        lemma_nav_count_grows(m, a, (b - 1) as nat);
    }
}

/// Filing one more ephemeris under `key` adds one to the count over the keys
/// below `n` where `key` is one of them.
proof fn lemma_nav_count_filed(
    old_m: Map<u8, Vec<Rtcm3MessageType>>,
    new_m: Map<u8, Vec<Rtcm3MessageType>>,
    key: u8,
    x: Rtcm3MessageType,
    n: nat,
)
    requires
        new_m.remove(key) == old_m.remove(key),
        new_m.contains_key(key),
        new_m[key]@ == nav_list(old_m, key).push(x),
        n <= 256,
    ensures
        nav_count_below(new_m, n) == nav_count_below(old_m, n) + (if key < n { 1int } else { 0int }),
    decreases n,
{
    if n > 0 {
        lemma_nav_count_filed(old_m, new_m, key, x, (n - 1) as nat);
        let k = (n - 1) as u8;
        if k != key {
            assert(new_m.remove(key).contains_key(k) == new_m.contains_key(k));
            assert(old_m.remove(key).contains_key(k) == old_m.contains_key(k));
            if new_m.contains_key(k) {
                assert(new_m[k] == new_m.remove(key)[k]);
                assert(old_m[k] == old_m.remove(key)[k]);
            }
            assert(nav_list(new_m, k) == nav_list(old_m, k));
        }
    }
}

/// Each GPS ephemeris that the context absorbs adds exactly one to the GPS
/// ephemeris count, each GLONASS ephemeris one to the GLONASS count, and no
/// other message changes either count.
pub proof fn lemma_ephemeris_counted(old: RtcmContext, new: RtcmContext, m: Rtcm3MessageType)
    requires
        RtcmContext::absorbed(old, new, m),
    ensures
        m is GpsEphemeris ==> nav_count(new.gps_nav_data@) == nav_count(old.gps_nav_data@) + 1
            && nav_count(new.glo_nav_data@) == nav_count(old.glo_nav_data@),
        m is GlonassEphemeris ==> nav_count(new.glo_nav_data@) == nav_count(old.glo_nav_data@) + 1
            && nav_count(new.gps_nav_data@) == nav_count(old.gps_nav_data@),
        !(m is GpsEphemeris) && !(m is GlonassEphemeris) ==> nav_count(new.gps_nav_data@) == nav_count(
            old.gps_nav_data@,
        ) && nav_count(new.glo_nav_data@) == nav_count(old.glo_nav_data@),
{
    match m {
        Rtcm3MessageType::GpsEphemeris { prn, .. } => {
            lemma_nav_count_filed(old.gps_nav_data@, new.gps_nav_data@, prn, m, 256);
        },
        Rtcm3MessageType::GlonassEphemeris { slot, .. } => {
            lemma_nav_count_filed(old.glo_nav_data@, new.glo_nav_data@, slot, m, 256);
        },
        _ => {},
    }
}

/// Whether `a` and `b` are the same message: the same variant with the same
/// fields, lists compared by their elements.
pub open spec fn same_message(a: Rtcm3MessageType, b: Rtcm3MessageType) -> bool {
    if msm_variant(a) is Some {
        msm_variant(a) == msm_variant(b) && msm_content(a) == msm_content(b)
    } else {
        match (a, b) {
            (Rtcm3MessageType::Raw { msg_type: t1, payload: p1 }, Rtcm3MessageType::Raw { msg_type: t2, payload: p2 }) => {
                t1 == t2 && p1@ == p2@
            },
            _ => a == b,
        }
    }
}

/// A copy of `v`.
fn copy_vec<T: Copy>(v: &Vec<T>) -> (r: Vec<T>)
    ensures
        r@ == v@,
{
    let mut r: Vec<T> = Vec::with_capacity(v.len());
    let mut i: usize = 0;
    while i < v.len()
        invariant
            i <= v.len(),
            r@ == v@.take(i as int),
        decreases v.len() - i,
    {
        r.push(v[i]);
        proof {
            assert(v@.take(i + 1) =~= v@.take(i as int).push(v@[i as int]));
        }
        i = i + 1;
    }
    proof {
        assert(v@.take(v.len() as int) =~= v@);
    }
    r
}

/// A copy of `t`.
fn copy_text(t: &Option<String>) -> (r: Option<String>)
    ensures
        r == *t,
{
    match t {
        Some(s) => Some(s.clone()),
        None => None,
    }
}

/// A copy of the message `m`.
fn copy_message(m: &Rtcm3MessageType) -> (r: Rtcm3MessageType)
    ensures
        same_message(r, *m),
{
    match m {
        Rtcm3MessageType::Msm4Gps { station_id, epoch_time, satellites, signals } => Rtcm3MessageType::Msm4Gps {
            station_id: *station_id,
            epoch_time: *epoch_time,
            satellites: copy_vec(satellites),
            signals: copy_vec(signals),
        },
        Rtcm3MessageType::Msm4Glonass { station_id, epoch_time, satellites, signals } => Rtcm3MessageType::Msm4Glonass {
            station_id: *station_id,
            epoch_time: *epoch_time,
            satellites: copy_vec(satellites),
            signals: copy_vec(signals),
        },
        Rtcm3MessageType::Msm4Galileo { station_id, epoch_time, satellites, signals } => Rtcm3MessageType::Msm4Galileo {
            station_id: *station_id,
            epoch_time: *epoch_time,
            satellites: copy_vec(satellites),
            signals: copy_vec(signals),
        },
        Rtcm3MessageType::Msm4Beidou { station_id, epoch_time, satellites, signals } => Rtcm3MessageType::Msm4Beidou {
            station_id: *station_id,
            epoch_time: *epoch_time,
            satellites: copy_vec(satellites),
            signals: copy_vec(signals),
        },
        Rtcm3MessageType::Msm5Gps { station_id, epoch_time, satellites, signals } => Rtcm3MessageType::Msm5Gps {
            station_id: *station_id,
            epoch_time: *epoch_time,
            satellites: copy_vec(satellites),
            signals: copy_vec(signals),
        },
        Rtcm3MessageType::Msm5Glonass { station_id, epoch_time, satellites, signals } => Rtcm3MessageType::Msm5Glonass {
            station_id: *station_id,
            epoch_time: *epoch_time,
            satellites: copy_vec(satellites),
            signals: copy_vec(signals),
        },
        Rtcm3MessageType::Msm5Galileo { station_id, epoch_time, satellites, signals } => Rtcm3MessageType::Msm5Galileo {
            station_id: *station_id,
            epoch_time: *epoch_time,
            satellites: copy_vec(satellites),
            signals: copy_vec(signals),
        },
        Rtcm3MessageType::Msm5Beidou { station_id, epoch_time, satellites, signals } => Rtcm3MessageType::Msm5Beidou {
            station_id: *station_id,
            epoch_time: *epoch_time,
            satellites: copy_vec(satellites),
            signals: copy_vec(signals),
        },
        Rtcm3MessageType::Msm6Gps { station_id, epoch_time, satellites, signals } => Rtcm3MessageType::Msm6Gps {
            station_id: *station_id,
            epoch_time: *epoch_time,
            satellites: copy_vec(satellites),
            signals: copy_vec(signals),
        },
        Rtcm3MessageType::Msm6Glonass { station_id, epoch_time, satellites, signals } => Rtcm3MessageType::Msm6Glonass {
            station_id: *station_id,
            epoch_time: *epoch_time,
            satellites: copy_vec(satellites),
            signals: copy_vec(signals),
        },
        Rtcm3MessageType::Msm6Galileo { station_id, epoch_time, satellites, signals } => Rtcm3MessageType::Msm6Galileo {
            station_id: *station_id,
            epoch_time: *epoch_time,
            satellites: copy_vec(satellites),
            signals: copy_vec(signals),
        },
        Rtcm3MessageType::Msm6Beidou { station_id, epoch_time, satellites, signals } => Rtcm3MessageType::Msm6Beidou {
            station_id: *station_id,
            epoch_time: *epoch_time,
            satellites: copy_vec(satellites),
            signals: copy_vec(signals),
        },
        Rtcm3MessageType::Msm7Gps { station_id, epoch_time, satellites, signals } => Rtcm3MessageType::Msm7Gps {
            station_id: *station_id,
            epoch_time: *epoch_time,
            satellites: copy_vec(satellites),
            signals: copy_vec(signals),
        },
        Rtcm3MessageType::Msm7Glonass { station_id, epoch_time, satellites, signals } => Rtcm3MessageType::Msm7Glonass {
            station_id: *station_id,
            epoch_time: *epoch_time,
            satellites: copy_vec(satellites),
            signals: copy_vec(signals),
        },
        Rtcm3MessageType::Msm7Galileo { station_id, epoch_time, satellites, signals } => Rtcm3MessageType::Msm7Galileo {
            station_id: *station_id,
            epoch_time: *epoch_time,
            satellites: copy_vec(satellites),
            signals: copy_vec(signals),
        },
        Rtcm3MessageType::Msm7Beidou { station_id, epoch_time, satellites, signals } => Rtcm3MessageType::Msm7Beidou {
            station_id: *station_id,
            epoch_time: *epoch_time,
            satellites: copy_vec(satellites),
            signals: copy_vec(signals),
        },
        Rtcm3MessageType::ReferenceStationCoordinates { station_id, itrf_year, has_antenna_height, x, y, z, antenna_height } => {
            Rtcm3MessageType::ReferenceStationCoordinates {
                station_id: *station_id,
                itrf_year: *itrf_year,
                has_antenna_height: *has_antenna_height,
                x: *x,
                y: *y,
                z: *z,
                antenna_height: *antenna_height,
            }
        },
        Rtcm3MessageType::AntennaDescription { station_id, description, serial_number } => {
            Rtcm3MessageType::AntennaDescription {
                station_id: *station_id,
                description: description.clone(),
                serial_number: copy_text(serial_number),
            }
        },
        Rtcm3MessageType::TextMessage { station_id, modified_julian_day, seconds_of_day, n_chars, message } => {
            Rtcm3MessageType::TextMessage {
                station_id: *station_id,
                modified_julian_day: *modified_julian_day,
                seconds_of_day: *seconds_of_day,
                n_chars: *n_chars,
                message: message.clone(),
            }
        },
        Rtcm3MessageType::ReceiverAntennaDescription {
            station_id,
            antenna_descriptor,
            antenna_serial,
            receiver_type,
            firmware_version,
            receiver_serial,
        } => Rtcm3MessageType::ReceiverAntennaDescription {
            station_id: *station_id,
            antenna_descriptor: antenna_descriptor.clone(),
            antenna_serial: antenna_serial.clone(),
            receiver_type: receiver_type.clone(),
            firmware_version: firmware_version.clone(),
            receiver_serial: receiver_serial.clone(),
        },
        Rtcm3MessageType::Raw { msg_type, payload } => Rtcm3MessageType::Raw { msg_type: *msg_type, payload: copy_vec(payload) },
        Rtcm3MessageType::GpsEphemeris {
            station_id, prn, week, sva, code_l2, idot, iode, toc, af2, af1, af0, iodc, crs, deln, m0,
            cuc, e, cus, sqrt_a, toe, cic, omega0, cis, i0, crc, omega, omegad, tgd, svh, flag,
        } => Rtcm3MessageType::GpsEphemeris {
            station_id: *station_id, prn: *prn, week: *week, sva: *sva, code_l2: *code_l2,
            idot: *idot, iode: *iode, toc: *toc, af2: *af2, af1: *af1, af0: *af0, iodc: *iodc,
            crs: *crs, deln: *deln, m0: *m0, cuc: *cuc, e: *e, cus: *cus, sqrt_a: *sqrt_a,
            toe: *toe, cic: *cic, omega0: *omega0, cis: *cis, i0: *i0, crc: *crc, omega: *omega,
            omegad: *omegad, tgd: *tgd, svh: *svh, flag: *flag,
        },
        Rtcm3MessageType::GlonassEphemeris {
            station_id, slot, freqo, svh, age, pos, vel, acc, tau_n, gamma, tk, week, tod,
        } => Rtcm3MessageType::GlonassEphemeris {
            station_id: *station_id, slot: *slot, freqo: *freqo, svh: *svh, age: *age,
            pos: *pos, vel: *vel, acc: *acc, tau_n: *tau_n, gamma: *gamma, tk: *tk,
            week: *week, tod: *tod,
        },
    }
}

/// Follows a byte stream that may mix RTCM 2 and RTCM 3 frames, and keeps the
/// reference station description and the broadcast ephemerides that arrive.
#[derive(Debug)]
pub struct RtcmContext {
    /// The RTCM 2 synchroniser.
    pub rtcm2_parser: Rtcm2Parser,
    /// The RTCM 3 synchroniser.
    pub rtcm3_parser: Rtcm3Parser,
    /// The last message delivered since the context was made or cleared.
    pub last_message_type: Option<RtcmMessageType>,
    /// GPS ephemerides (1019) by PRN, in order of arrival.
    pub gps_nav_data: HashMap<u8, Vec<Rtcm3MessageType>>,
    /// GLONASS ephemerides (1020) by slot, in order of arrival.
    pub glo_nav_data: HashMap<u8, Vec<Rtcm3MessageType>>,
    /// The station number of the last message that carried one.
    pub station_id: u16,
    /// The antenna reference point (ECEF, units of 0.1 mm).
    pub station_pos: Option<(i64, i64, i64)>,
    /// The antenna height (units of 0.1 mm).
    pub antenna_height: Option<u16>,
    /// The antenna descriptor.
    pub antenna_descriptor: Option<String>,
    /// The antenna serial number.
    pub antenna_serial: Option<String>,
    /// The receiver type.
    pub receiver_type: Option<String>,
    /// The receiver firmware version.
    pub firmware_version: Option<String>,
    /// The receiver serial number.
    pub receiver_serial: Option<String>,
}

impl RtcmContext {
    /// The context's invariant: both synchronisers are well formed, and each
    /// stored ephemeris is filed under its own PRN or slot.
    pub open spec fn wf(&self) -> bool {
        &&& self.rtcm2_parser.wf()
        &&& self.rtcm3_parser.wf()
        &&& forall|k: u8, i: int|
            self.gps_nav_data@.contains_key(k) && 0 <= i < self.gps_nav_data@[k]@.len()
                ==> #[trigger] is_gps_ephemeris_of(self.gps_nav_data@[k]@[i], k)
        &&& forall|k: u8, i: int|
            self.glo_nav_data@.contains_key(k) && 0 <= i < self.glo_nav_data@[k]@.len()
                ==> #[trigger] is_glonass_ephemeris_of(self.glo_nav_data@[k]@[i], k)
    }

    /// The station position, height and descriptors are those of `other`.
    pub open spec fn same_station_info(&self, other: &RtcmContext) -> bool {
        &&& self.station_pos == other.station_pos
        &&& self.antenna_height == other.antenna_height
        &&& self.antenna_descriptor == other.antenna_descriptor
        &&& self.antenna_serial == other.antenna_serial
        &&& self.receiver_type == other.receiver_type
        &&& self.firmware_version == other.firmware_version
        &&& self.receiver_serial == other.receiver_serial
    }

    /// The stored ephemerides are those of `other`.
    pub open spec fn same_nav(&self, other: &RtcmContext) -> bool {
        &&& self.gps_nav_data@ == other.gps_nav_data@
        &&& self.glo_nav_data@ == other.glo_nav_data@
    }

    /// Station number, station description and ephemerides are those of `other`.
    pub open spec fn same_data(&self, other: &RtcmContext) -> bool {
        &&& self.station_id == other.station_id
        &&& self.same_station_info(other)
        &&& self.same_nav(other)
    }

    /// What the context keeps of the RTCM 3 message `m`: the station number of
    /// every message that carries one, the coordinates and height of 1005/1006,
    /// the descriptors of 1007/1008 and 1033, and each 1019 and 1020 ephemeris
    /// appended to those of its satellite. Nothing else changes.
    pub open spec fn absorbed(old: RtcmContext, new: RtcmContext, m: Rtcm3MessageType) -> bool {
        match m {
            Rtcm3MessageType::ReferenceStationCoordinates { station_id, x, y, z, antenna_height, .. } => {
                &&& new.station_id == station_id
                &&& new.station_pos == Some((x, y, z))
                &&& new.antenna_height == antenna_height
                &&& new.antenna_descriptor == old.antenna_descriptor
                &&& new.antenna_serial == old.antenna_serial
                &&& new.receiver_type == old.receiver_type
                &&& new.firmware_version == old.firmware_version
                &&& new.receiver_serial == old.receiver_serial
                &&& new.same_nav(&old)
            },
            Rtcm3MessageType::AntennaDescription { station_id, description, serial_number } => {
                &&& new.station_id == station_id
                &&& new.station_pos == old.station_pos
                &&& new.antenna_height == old.antenna_height
                &&& new.antenna_descriptor == Some(description)
                &&& new.antenna_serial == serial_number
                &&& new.receiver_type == old.receiver_type
                &&& new.firmware_version == old.firmware_version
                &&& new.receiver_serial == old.receiver_serial
                &&& new.same_nav(&old)
            },
            Rtcm3MessageType::ReceiverAntennaDescription {
                station_id,
                antenna_descriptor,
                antenna_serial,
                receiver_type,
                firmware_version,
                receiver_serial,
            } => {
                &&& new.station_id == station_id
                &&& new.station_pos == old.station_pos
                &&& new.antenna_height == old.antenna_height
                &&& new.antenna_descriptor == Some(antenna_descriptor)
                &&& new.antenna_serial == Some(antenna_serial)
                &&& new.receiver_type == Some(receiver_type)
                &&& new.firmware_version == Some(firmware_version)
                &&& new.receiver_serial == Some(receiver_serial)
                &&& new.same_nav(&old)
            },
            Rtcm3MessageType::GpsEphemeris { station_id, prn, .. } => {
                &&& new.station_id == station_id
                &&& new.same_station_info(&old)
                &&& new.glo_nav_data@ == old.glo_nav_data@
                &&& new.gps_nav_data@.remove(prn) == old.gps_nav_data@.remove(prn)
                &&& new.gps_nav_data@.contains_key(prn)
                &&& new.gps_nav_data@[prn]@ == nav_list(old.gps_nav_data@, prn).push(m)
            },
            Rtcm3MessageType::GlonassEphemeris { station_id, slot, .. } => {
                &&& new.station_id == station_id
                &&& new.same_station_info(&old)
                &&& new.gps_nav_data@ == old.gps_nav_data@
                &&& new.glo_nav_data@.remove(slot) == old.glo_nav_data@.remove(slot)
                &&& new.glo_nav_data@.contains_key(slot)
                &&& new.glo_nav_data@[slot]@ == nav_list(old.glo_nav_data@, slot).push(m)
            },
            _ => {
                &&& new.station_id == (match msm_content(m) {
                    Some(c) => c.0,
                    None => old.station_id,
                })
                &&& new.same_station_info(&old)
                &&& new.same_nav(&old)
            },
        }
    }

    /// The RTCM 3 synchroniser's part of a result of [`RtcmContext::process_byte`].
    pub open spec fn rtcm3_part(r: Result<Option<RtcmMessageType>, RtcmError>) -> Result<Option<Rtcm3MessageType>, Rtcm3Error> {
        match r {
            Err(RtcmError::Rtcm3Error(e)) => Err(e),
            Ok(Some(RtcmMessageType::Rtcm3(m))) => Ok(Some(m)),
            _ => Ok(None),
        }
    }

    /// What one call of [`RtcmContext::process_byte`] does: the byte goes to the
    /// RTCM 3 synchroniser; an error from it is returned, and a message from it
    /// is absorbed and returned. Only where it delivers nothing does the byte go
    /// on to the RTCM 2 synchroniser, whose error or message type is returned.
    pub open spec fn process_byte_post(
        old: RtcmContext,
        new: RtcmContext,
        byte: u8,
        r: Result<Option<RtcmMessageType>, RtcmError>,
    ) -> bool {
        &&& new.wf()
        &&& Rtcm3Parser::process_byte_post(old.rtcm3_parser, new.rtcm3_parser, byte, Self::rtcm3_part(r))
        &&& match r {
            Err(RtcmError::Rtcm3Error(_)) => {
                &&& new.rtcm2_parser == old.rtcm2_parser
                &&& new.same_data(&old)
                &&& new.last_message_type == old.last_message_type
            },
            Ok(Some(RtcmMessageType::Rtcm3(m))) => {
                &&& new.rtcm2_parser == old.rtcm2_parser
                &&& Self::absorbed(old, new, m)
                &&& new.last_message_type matches Some(RtcmMessageType::Rtcm3(c)) && same_message(c, m)
            },
            Err(RtcmError::Rtcm2Error(e)) => {
                &&& Rtcm2Parser::process_byte_post(old.rtcm2_parser, new.rtcm2_parser, byte, Err(e))
                &&& new.same_data(&old)
                &&& new.last_message_type == old.last_message_type
            },
            Ok(Some(RtcmMessageType::Rtcm2(t))) => {
                &&& exists|m2: Rtcm2Message|
                    m2.header.message_type == t && #[trigger] Rtcm2Parser::process_byte_post(
                        old.rtcm2_parser,
                        new.rtcm2_parser,
                        byte,
                        Ok(Some(m2)),
                    )
                &&& new.same_data(&old)
                &&& new.last_message_type == Some(RtcmMessageType::Rtcm2(t))
            },
            Ok(None) => {
                &&& Rtcm2Parser::process_byte_post(old.rtcm2_parser, new.rtcm2_parser, byte, Ok(None))
                &&& new.same_data(&old)
                &&& new.last_message_type == old.last_message_type
            },
            _ => false,
        }
    }

    /// A context with both synchronisers looking for a preamble and nothing
    /// stored.
    pub fn new() -> (r: Result<Self, RtcmError>)
        ensures
            r is Ok,
            r matches Ok(c) && {
                &&& c.wf()
                &&& c.rtcm2_parser.sync_state == rtcm2::SyncState::FindPreamble
                &&& c.rtcm2_parser.buffer@ == Seq::<u8>::empty()
                &&& c.rtcm2_parser.message_length == 0
                &&& c.rtcm3_parser.state == rtcm3::Rtcm3ParserState::FindPreamble
                &&& c.rtcm3_parser.buffer@ == Seq::<u8>::empty()
                &&& c.rtcm3_parser.current_length == 0
                &&& c.rtcm3_parser.current_type == 0
                &&& c.last_message_type is None
                &&& c.gps_nav_data@ == Map::<u8, Vec<Rtcm3MessageType>>::empty()
                &&& c.glo_nav_data@ == Map::<u8, Vec<Rtcm3MessageType>>::empty()
                &&& c.station_id == 0
                &&& c.station_pos is None
                &&& c.antenna_height is None
                &&& c.antenna_descriptor is None
                &&& c.antenna_serial is None
                &&& c.receiver_type is None
                &&& c.firmware_version is None
                &&& c.receiver_serial is None
            },
    {
        Ok(Self {
            rtcm2_parser: Rtcm2Parser::new(),
            rtcm3_parser: Rtcm3Parser::new(),
            last_message_type: None,
            gps_nav_data: HashMap::new(),
            glo_nav_data: HashMap::new(),
            station_id: 0,
            station_pos: None,
            antenna_height: None,
            antenna_descriptor: None,
            antenna_serial: None,
            receiver_type: None,
            firmware_version: None,
            receiver_serial: None,
        })
    }

    /// Feeds one byte of the stream; returns the message it completes, if any.
    pub fn process_byte(&mut self, byte: u8) -> (r: Result<Option<RtcmMessageType>, RtcmError>)
        requires
            old(self).wf(),
        ensures
            Self::process_byte_post(*old(self), *final(self), byte, r),
    {
        match self.rtcm3_parser.process_byte(byte) {
            Err(e) => {
                return Err(RtcmError::Rtcm3Error(e));
            },
            Ok(Some(msg)) => {
                self.last_message_type = Some(RtcmMessageType::Rtcm3(copy_message(&msg)));
                self.process_rtcm3_message(&msg);
                return Ok(Some(RtcmMessageType::Rtcm3(msg)));
            },
            Ok(None) => {},
        }
        match self.rtcm2_parser.process_byte(byte) {
            Err(e) => Err(RtcmError::Rtcm2Error(e)),
            Ok(Some(msg)) => {
                let t = msg.header.message_type;
                self.last_message_type = Some(RtcmMessageType::Rtcm2(t));
                Ok(Some(RtcmMessageType::Rtcm2(t)))
            },
            Ok(None) => Ok(None),
        }
    }

    /// Appends `record`, an ephemeris of `key`, to those filed under `key`.
    fn file_ephemeris(map: &mut HashMap<u8, Vec<Rtcm3MessageType>>, key: u8, record: Rtcm3MessageType)
        ensures
            final(map)@.remove(key) == old(map)@.remove(key),
            final(map)@.contains_key(key),
            final(map)@[key]@ == nav_list(old(map)@, key).push(record),
    {
        let mut list = match map.remove(&key) {
            Some(v) => v,
            None => Vec::new(),
        };
        list.push(record);
        map.insert(key, list);
        proof {
            assert(map@.remove(key) =~= old(map)@.remove(key));
        }
    }

    /// Keeps what the RTCM 3 message `msg` says of the station and the ephemerides.
    fn process_rtcm3_message(&mut self, msg: &Rtcm3MessageType)
        requires
            old(self).wf(),
        ensures
            final(self).wf(),
            Self::absorbed(*old(self), *final(self), *msg),
            final(self).rtcm2_parser == old(self).rtcm2_parser,
            final(self).rtcm3_parser == old(self).rtcm3_parser,
            final(self).last_message_type == old(self).last_message_type,
    {
        match msg {
            Rtcm3MessageType::Msm4Gps { station_id, .. }
            | Rtcm3MessageType::Msm5Gps { station_id, .. }
            | Rtcm3MessageType::Msm6Gps { station_id, .. }
            | Rtcm3MessageType::Msm7Gps { station_id, .. }
            | Rtcm3MessageType::Msm4Glonass { station_id, .. }
            | Rtcm3MessageType::Msm5Glonass { station_id, .. }
            | Rtcm3MessageType::Msm6Glonass { station_id, .. }
            | Rtcm3MessageType::Msm7Glonass { station_id, .. }
            | Rtcm3MessageType::Msm4Galileo { station_id, .. }
            | Rtcm3MessageType::Msm5Galileo { station_id, .. }
            | Rtcm3MessageType::Msm6Galileo { station_id, .. }
            | Rtcm3MessageType::Msm7Galileo { station_id, .. }
            | Rtcm3MessageType::Msm4Beidou { station_id, .. }
            | Rtcm3MessageType::Msm5Beidou { station_id, .. }
            | Rtcm3MessageType::Msm6Beidou { station_id, .. }
            | Rtcm3MessageType::Msm7Beidou { station_id, .. } => {
                self.station_id = *station_id;
            },
            Rtcm3MessageType::ReferenceStationCoordinates { station_id, x, y, z, antenna_height, .. } => {
                self.station_id = *station_id;
                self.station_pos = Some((*x, *y, *z));
                self.antenna_height = *antenna_height;
            },
            Rtcm3MessageType::AntennaDescription { station_id, description, serial_number } => {
                self.station_id = *station_id;
                self.antenna_descriptor = Some(description.clone());
                self.antenna_serial = match serial_number {
                    Some(s) => Some(s.clone()),
                    None => None,
                };
            },
            Rtcm3MessageType::ReceiverAntennaDescription {
                station_id,
                antenna_descriptor,
                antenna_serial,
                receiver_type,
                firmware_version,
                receiver_serial,
            } => {
                self.station_id = *station_id;
                self.antenna_descriptor = Some(antenna_descriptor.clone());
                self.antenna_serial = Some(antenna_serial.clone());
                self.receiver_type = Some(receiver_type.clone());
                self.firmware_version = Some(firmware_version.clone());
                self.receiver_serial = Some(receiver_serial.clone());
            },
            Rtcm3MessageType::GpsEphemeris { station_id, prn, .. } => {
                self.station_id = *station_id;
                let record = copy_message(msg);
                let ghost before = self.gps_nav_data@;
                Self::file_ephemeris(&mut self.gps_nav_data, *prn, record);
                proof {
                    let after = self.gps_nav_data@;
                    assert forall|k: u8, i: int|
                        after.contains_key(k) && 0 <= i < after[k]@.len()
                            implies #[trigger] is_gps_ephemeris_of(after[k]@[i], k) by {
                        if k != *prn {
                            assert(before.remove(*prn).contains_key(k));
                            assert(after[k] == after.remove(*prn)[k]);
                        } else if i < nav_list(before, k).len() {
                            assert(after[k]@[i] == before[k]@[i]);
                        }
                    }
                }
            },
            Rtcm3MessageType::GlonassEphemeris { station_id, slot, .. } => {
                self.station_id = *station_id;
                let record = copy_message(msg);
                let ghost before = self.glo_nav_data@;
                Self::file_ephemeris(&mut self.glo_nav_data, *slot, record);
                proof {
                    let after = self.glo_nav_data@;
                    assert forall|k: u8, i: int|
                        after.contains_key(k) && 0 <= i < after[k]@.len()
                            implies #[trigger] is_glonass_ephemeris_of(after[k]@[i], k) by {
                        if k != *slot {
                            assert(before.remove(*slot).contains_key(k));
                            assert(after[k] == after.remove(*slot)[k]);
                        } else if i < nav_list(before, k).len() {
                            assert(after[k]@[i] == before[k]@[i]);
                        }
                    }
                }
            },
            _ => {},
        }
    }

    /// The number of ephemerides filed in `map`.
    fn count_filed(map: &HashMap<u8, Vec<Rtcm3MessageType>>) -> (n: usize)
        requires
            nav_count(map@) <= usize::MAX,
        ensures
            n == nav_count(map@),
    {
        let mut n: usize = 0;
        let mut k: u16 = 0;
        while k < 256
            invariant
                k <= 256,
                n == nav_count_below(map@, k as nat),
                nav_count(map@) <= usize::MAX,
            decreases 256 - k,
        {
            proof {
                lemma_nav_count_grows(map@, (k + 1) as nat, 256);
            }
            let key = k as u8;
            match map.get(&key) {
                Some(list) => {
                    n = n + list.len();
                },
                None => {},
            }
            k = k + 1;
        }
        n
    }

    /// The number of GPS ephemerides stored, over all satellites.
    pub fn get_gps_nav_count(&self) -> (n: usize)
        requires
            nav_count(self.gps_nav_data@) <= usize::MAX,
        ensures
            n == nav_count(self.gps_nav_data@),
    {
        Self::count_filed(&self.gps_nav_data)
    }

    /// The number of GLONASS ephemerides stored, over all satellites.
    pub fn get_glonass_nav_count(&self) -> (n: usize)
        requires
            nav_count(self.glo_nav_data@) <= usize::MAX,
        ensures
            n == nav_count(self.glo_nav_data@),
    {
        Self::count_filed(&self.glo_nav_data)
    }

    /// Forgets the stored ephemerides and the last message; the synchronisers
    /// and the station description stay.
    pub fn clear(&mut self)
        requires
            old(self).wf(),
        ensures
            final(self).wf(),
            final(self).gps_nav_data@ == Map::<u8, Vec<Rtcm3MessageType>>::empty(),
            final(self).glo_nav_data@ == Map::<u8, Vec<Rtcm3MessageType>>::empty(),
            final(self).last_message_type is None,
            final(self).rtcm2_parser == old(self).rtcm2_parser,
            final(self).rtcm3_parser == old(self).rtcm3_parser,
            final(self).station_id == old(self).station_id,
            final(self).same_station_info(&*old(self)),
    {
        self.gps_nav_data.clear();
        self.glo_nav_data.clear();
        self.last_message_type = None;
    }
}

} // verus!
