//! RTCM 3 frames: synchronisation on the 0xD3 preamble, the CRC-24Q frame
//! check, and decoding of the message types the converter understands into
//! raw (unscaled) fields.

use vstd::prelude::*;
use vstd::std_specs::cmp::PartialEqSpecImpl;
use vstd::string::*;
use vstd::slice::slice_subrange;
use vstd::arithmetic::power2::{pow2, lemma2_to64};
use crate::util::bits::{BitError, BitReader, bit_at, bits_value, bits_signed, lemma_bits_value_bound, lemma_bits_value_concat};
use crate::util::text::{push_char, text_with_number, decimal_text};
use crate::rtcm::msm::{MsmEpoch, MsmError, MsmSatelliteData, MsmSignalData, msm_decoded, msm_error_text, parse_msm, msm_complete, msm_type_of, msm_variant, gnss_type_of};
use crate::rtcm::crc24q::{crc24q, lemma_crc24q_table_agrees, crc24q_by_table, crc24q_table_entry, lemma_crc24q_bounds, lemma_crc24q_index_bound};

verus! {

/// CRC-24Q lookup table, one entry per index byte.
const TBL_CRC24Q: [u32; 256] = [
    0x000000, 0x864CFB, 0x8AD50D, 0x0C99F6, 0x93E6E1, 0x15AA1A, 0x1933EC, 0x9F7F17,
    0xA18139, 0x27CDC2, 0x2B5434, 0xAD18CF, 0x3267D8, 0xB42B23, 0xB8B2D5, 0x3EFE2E,
    0xC54E89, 0x430272, 0x4F9B84, 0xC9D77F, 0x56A868, 0xD0E493, 0xDC7D65, 0x5A319E,
    0x64CFB0, 0xE2834B, 0xEE1ABD, 0x685646, 0xF72951, 0x7165AA, 0x7DFC5C, 0xFBB0A7,
    0x0CD1E9, 0x8A9D12, 0x8604E4, 0x00481F, 0x9F3708, 0x197BF3, 0x15E205, 0x93AEFE,
    0xAD50D0, 0x2B1C2B, 0x2785DD, 0xA1C926, 0x3EB631, 0xB8FACA, 0xB4633C, 0x322FC7,
    0xC99F60, 0x4FD39B, 0x434A6D, 0xC50696, 0x5A7981, 0xDC357A, 0xD0AC8C, 0x56E077,
    0x681E59, 0xEE52A2, 0xE2CB54, 0x6487AF, 0xFBF8B8, 0x7DB443, 0x712DB5, 0xF7614E,
    0x19A3D2, 0x9FEF29, 0x9376DF, 0x153A24, 0x8A4533, 0x0C09C8, 0x00903E, 0x86DCC5,
    0xB822EB, 0x3E6E10, 0x32F7E6, 0xB4BB1D, 0x2BC40A, 0xAD88F1, 0xA11107, 0x275DFC,
    0xDCED5B, 0x5AA1A0, 0x563856, 0xD074AD, 0x4F0BBA, 0xC94741, 0xC5DEB7, 0x43924C,
    0x7D6C62, 0xFB2099, 0xF7B96F, 0x71F594, 0xEE8A83, 0x68C678, 0x645F8E, 0xE21375,
    0x15723B, 0x933EC0, 0x9FA736, 0x19EBCD, 0x8694DA, 0x00D821, 0x0C41D7, 0x8A0D2C,
    0xB4F302, 0x32BFF9, 0x3E260F, 0xB86AF4, 0x2715E3, 0xA15918, 0xADC0EE, 0x2B8C15,
    0xD03CB2, 0x567049, 0x5AE9BF, 0xDCA544, 0x43DA53, 0xC596A8, 0xC90F5E, 0x4F43A5,
    0x71BD8B, 0xF7F170, 0xFB6886, 0x7D247D, 0xE25B6A, 0x641791, 0x688E67, 0xEEC29C,
    0x3347A4, 0xB50B5F, 0xB992A9, 0x3FDE52, 0xA0A145, 0x26EDBE, 0x2A7448, 0xAC38B3,
    0x92C69D, 0x148A66, 0x181390, 0x9E5F6B, 0x01207C, 0x876C87, 0x8BF571, 0x0DB98A,
    0xF6092D, 0x7045D6, 0x7CDC20, 0xFA90DB, 0x65EFCC, 0xE3A337, 0xEF3AC1, 0x69763A,
    0x578814, 0xD1C4EF, 0xDD5D19, 0x5B11E2, 0xC46EF5, 0x42220E, 0x4EBBF8, 0xC8F703,
    0x3F964D, 0xB9DAB6, 0xB54340, 0x330FBB, 0xAC70AC, 0x2A3C57, 0x26A5A1, 0xA0E95A,
    0x9E1774, 0x185B8F, 0x14C279, 0x928E82, 0x0DF195, 0x8BBD6E, 0x872498, 0x016863,
    0xFAD8C4, 0x7C943F, 0x700DC9, 0xF64132, 0x693E25, 0xEF72DE, 0xE3EB28, 0x65A7D3,
    0x5B59FD, 0xDD1506, 0xD18CF0, 0x57C00B, 0xC8BF1C, 0x4EF3E7, 0x426A11, 0xC426EA,
    0x2AE476, 0xACA88D, 0xA0317B, 0x267D80, 0xB90297, 0x3F4E6C, 0x33D79A, 0xB59B61,
    0x8B654F, 0x0D29B4, 0x01B042, 0x87FCB9, 0x1883AE, 0x9ECF55, 0x9256A3, 0x141A58,
    0xEFAAFF, 0x69E604, 0x657FF2, 0xE33309, 0x7C4C1E, 0xFA00E5, 0xF69913, 0x70D5E8,
    0x4E2BC6, 0xC8673D, 0xC4FECB, 0x42B230, 0xDDCD27, 0x5B81DC, 0x57182A, 0xD154D1,
    0x26359F, 0xA07964, 0xACE092, 0x2AAC69, 0xB5D37E, 0x339F85, 0x3F0673, 0xB94A88,
    0x87B4A6, 0x01F85D, 0x0D61AB, 0x8B2D50, 0x145247, 0x921EBC, 0x9E874A, 0x18CBB1,
    0xE37B16, 0x6537ED, 0x69AE1B, 0xEFE2E0, 0x709DF7, 0xF6D10C, 0xFA48FA, 0x7C0401,
    0x42FA2F, 0xC4B6D4, 0xC82F22, 0x4E63D9, 0xD11CCE, 0x575035, 0x5BC9C3, 0xDD8538,
];

/// Each entry of the constant table is the entry that the specification names.
proof fn lemma_table_const()
    ensures
        forall|i: int| 0 <= i < 256 ==> TBL_CRC24Q[i] == #[trigger] crc24q_table_entry(i),
{
}

/// The 24-bit big-endian number held in `d[i]`, `d[i+1]`, `d[i+2]`.
pub open spec fn be24(d: Seq<u8>, i: int) -> int {
    d[i] * 65536 + d[i + 1] * 256 + d[i + 2]
}

/// Whether `frame` ends in the three-byte checksum of the rest of it.
pub open spec fn frame_crc_ok(frame: Seq<u8>) -> bool {
    frame.len() >= 6 && crc24q_by_table(frame.take(frame.len() - 3)) as int == be24(frame, frame.len() - 3)
}

/// CRC-24Q of the first `len` bytes of `data`, a byte at a time through the
/// lookup table.
pub fn rtcm3_crc(data: &[u8], len: usize) -> (r: u32)
    requires
        len <= data@.len(),
    ensures
        r == crc24q_by_table(data@.take(len as int)),
        r == crc24q(data@.take(len as int)),
{
    let mut crc: u32 = 0;
    let mut i: usize = 0;
    proof {
        lemma_table_const();
        assert(data@.take(0) =~= Seq::<u8>::empty());
    }
    while i < len
        invariant
            len <= data@.len(),
            i <= len,
            crc == crc24q_by_table(data@.take(i as int)),
            forall|k: int| 0 <= k < 256 ==> TBL_CRC24Q[k] == #[trigger] crc24q_table_entry(k),
        decreases len - i,
    {
        proof {
            lemma_crc24q_bounds(data@.take(i as int));
            lemma_crc24q_index_bound(crc, data@[i as int] as u32);
            assert(data@.take(i + 1).drop_last() =~= data@.take(i as int));
        }
        let idx = ((crc >> 16u32) ^ (data[i] as u32)) as usize;
        crc = ((crc << 8u32) & 0xFFFFFFu32) ^ TBL_CRC24Q[idx];
        i = i + 1;
    }
    proof {
        lemma_crc24q_table_agrees(data@.take(len as int));
    }
    crc
}

/// Checks that `data` ends in the CRC-24Q of the bytes before its last three.
pub fn check_crc(data: &[u8]) -> (r: bool)
    ensures
        r == frame_crc_ok(data@),
{
    if data.len() < 6 {
        return false;
    }
    let msg_len = data.len() - 3;
    let calculated_crc = rtcm3_crc(data, msg_len);
    let a = data[msg_len] as u32;
    let b = data[msg_len + 1] as u32;
    let c = data[msg_len + 2] as u32;
    proof {
        assert((a << 16u32) | (b << 8u32) | c == a * 65536 + b * 256 + c) by (bit_vector)
            requires a < 256, b < 256, c < 256;
    }
    let expected_crc = (a << 16u32) | (b << 8u32) | c;
    calculated_crc == expected_crc
}


/// Why an RTCM 3 frame could not be delivered as a message.
#[derive(Debug, Clone)]
pub enum Rtcm3Error {
    /// The frame's CRC-24Q did not match its contents.
    CrcError,
    /// A length field was not valid.
    InvalidLength(String),
    /// The frame header was not valid.
    InvalidHeader(String),
    /// The message number is not supported.
    UnsupportedMessageType(u16),
    /// A field held a value that the message does not allow.
    ParseError(String),
    /// The frame ended before a field.
    IoError(BitError),
}

/// Two errors are equal where they are of the same kind and carry equal
/// values; any two read failures count as equal, whatever their cause.
impl PartialEq for Rtcm3Error {
    fn eq(&self, other: &Self) -> (r: bool) {
        match (self, other) {
            (Rtcm3Error::CrcError, Rtcm3Error::CrcError) => true,
            (Rtcm3Error::InvalidLength(a), Rtcm3Error::InvalidLength(b)) => String::eq(a, b),
            (Rtcm3Error::InvalidHeader(a), Rtcm3Error::InvalidHeader(b)) => String::eq(a, b),
            (Rtcm3Error::UnsupportedMessageType(a), Rtcm3Error::UnsupportedMessageType(b)) => a == b,
            (Rtcm3Error::ParseError(a), Rtcm3Error::ParseError(b)) => String::eq(a, b),
            (Rtcm3Error::IoError(_), Rtcm3Error::IoError(_)) => true,
            _ => false,
        }
    }
}

impl PartialEqSpecImpl for Rtcm3Error {
    open spec fn obeys_eq_spec() -> bool {
        true
    }

    open spec fn eq_spec(&self, other: &Self) -> bool {
        match (self, other) {
            (Rtcm3Error::CrcError, Rtcm3Error::CrcError) => true,
            (Rtcm3Error::InvalidLength(a), Rtcm3Error::InvalidLength(b)) => a@ == b@,
            (Rtcm3Error::InvalidHeader(a), Rtcm3Error::InvalidHeader(b)) => a@ == b@,
            (Rtcm3Error::UnsupportedMessageType(a), Rtcm3Error::UnsupportedMessageType(b)) => a == b,
            (Rtcm3Error::ParseError(a), Rtcm3Error::ParseError(b)) => a@ == b@,
            (Rtcm3Error::IoError(_), Rtcm3Error::IoError(_)) => true,
            _ => false,
        }
    }
}

/// A decoded RTCM 3 message. Numeric fields hold the transmitted integers;
/// the comment on each says how the unit is scaled.
#[derive(Debug, Clone, PartialEq)]
pub enum Rtcm3MessageType {
    /// MSM4 observations (GPS - 1074)
    Msm4Gps { station_id: u16, epoch_time: MsmEpoch, satellites: Vec<MsmSatelliteData>, signals: Vec<MsmSignalData> },
    /// MSM4 observations (GLONASS - 1084)
    Msm4Glonass { station_id: u16, epoch_time: MsmEpoch, satellites: Vec<MsmSatelliteData>, signals: Vec<MsmSignalData> },
    /// MSM4 observations (Galileo - 1094)
    Msm4Galileo { station_id: u16, epoch_time: MsmEpoch, satellites: Vec<MsmSatelliteData>, signals: Vec<MsmSignalData> },
    /// MSM4 observations (BeiDou - 1124)
    Msm4Beidou { station_id: u16, epoch_time: MsmEpoch, satellites: Vec<MsmSatelliteData>, signals: Vec<MsmSignalData> },
    /// MSM5 observations (GPS - 1075)
    Msm5Gps { station_id: u16, epoch_time: MsmEpoch, satellites: Vec<MsmSatelliteData>, signals: Vec<MsmSignalData> },
    /// MSM5 observations (GLONASS - 1085)
    Msm5Glonass { station_id: u16, epoch_time: MsmEpoch, satellites: Vec<MsmSatelliteData>, signals: Vec<MsmSignalData> },
    /// MSM5 observations (Galileo - 1095)
    Msm5Galileo { station_id: u16, epoch_time: MsmEpoch, satellites: Vec<MsmSatelliteData>, signals: Vec<MsmSignalData> },
    /// MSM5 observations (BeiDou - 1125)
    Msm5Beidou { station_id: u16, epoch_time: MsmEpoch, satellites: Vec<MsmSatelliteData>, signals: Vec<MsmSignalData> },
    /// MSM6 observations (GPS - 1076)
    Msm6Gps { station_id: u16, epoch_time: MsmEpoch, satellites: Vec<MsmSatelliteData>, signals: Vec<MsmSignalData> },
    /// MSM6 observations (GLONASS - 1086)
    Msm6Glonass { station_id: u16, epoch_time: MsmEpoch, satellites: Vec<MsmSatelliteData>, signals: Vec<MsmSignalData> },
    /// MSM6 observations (Galileo - 1096)
    Msm6Galileo { station_id: u16, epoch_time: MsmEpoch, satellites: Vec<MsmSatelliteData>, signals: Vec<MsmSignalData> },
    /// MSM6 observations (BeiDou - 1126)
    Msm6Beidou { station_id: u16, epoch_time: MsmEpoch, satellites: Vec<MsmSatelliteData>, signals: Vec<MsmSignalData> },
    /// MSM7 observations (GPS - 1077)
    Msm7Gps { station_id: u16, epoch_time: MsmEpoch, satellites: Vec<MsmSatelliteData>, signals: Vec<MsmSignalData> },
    /// MSM7 observations (GLONASS - 1087)
    Msm7Glonass { station_id: u16, epoch_time: MsmEpoch, satellites: Vec<MsmSatelliteData>, signals: Vec<MsmSignalData> },
    /// MSM7 observations (Galileo - 1097)
    Msm7Galileo { station_id: u16, epoch_time: MsmEpoch, satellites: Vec<MsmSatelliteData>, signals: Vec<MsmSignalData> },
    /// MSM7 observations (BeiDou - 1127)
    Msm7Beidou { station_id: u16, epoch_time: MsmEpoch, satellites: Vec<MsmSatelliteData>, signals: Vec<MsmSignalData> },
    /// Reference station coordinates (1005/1006); coordinates and antenna
    /// height in units of 0.1 mm.
    ReferenceStationCoordinates {
        station_id: u16,
        itrf_year: u8,
        has_antenna_height: bool,
        x: i64,
        y: i64,
        z: i64,
        antenna_height: Option<u16>,
    },
    /// Antenna descriptor (1007/1008).
    AntennaDescription { station_id: u16, description: String, serial_number: Option<String> },
    /// Text message (1029).
    TextMessage {
        station_id: u16,
        modified_julian_day: u16,
        seconds_of_day: u32,
        n_chars: u8,
        message: String,
    },
    /// Receiver and antenna descriptors (1033).
    ReceiverAntennaDescription {
        station_id: u16,
        antenna_descriptor: String,
        antenna_serial: String,
        receiver_type: String,
        firmware_version: String,
        receiver_serial: String,
    },
    /// A message of a number that is not decoded, with the whole frame.
    Raw { msg_type: u16, payload: Vec<u8> },
    /// GPS ephemeris (1019). `toc` and `toe` are in seconds; `e` is in units
    /// of 2^-33 and `sqrt_a` of 2^-19 m^(1/2); the remaining fields are the
    /// signed multipliers of their scale factors (2^-43 pi for `idot`,
    /// `deln` and `omegad`, 2^-31 pi for `m0`, `omega0`, `i0` and `omega`,
    /// 2^-55, 2^-43 and 2^-31 for `af2`, `af1` and `af0`, 2^-5 m for
    /// `crs` and `crc`, 2^-29 rad for `cuc`, `cus`, `cic` and `cis`, 2^-31 s
    /// for `tgd`).
    GpsEphemeris {
        station_id: u16,
        prn: u8,
        week: u16,
        sva: u8,
        code_l2: u8,
        idot: i32,
        iode: u8,
        toc: u32,
        af2: i32,
        af1: i32,
        af0: i32,
        iodc: u16,
        crs: i32,
        deln: i32,
        m0: i32,
        cuc: i32,
        e: u32,
        cus: i32,
        sqrt_a: u32,
        toe: u32,
        cic: i32,
        omega0: i32,
        cis: i32,
        i0: i32,
        crc: i32,
        omega: i32,
        omegad: i32,
        tgd: i32,
        svh: u8,
        flag: u8,
    },
    /// GLONASS ephemeris (1020). Position in units of 2^-11 km, velocity of
    /// 2^-20 km/s, acceleration of 2^-30 km/s^2, `tau_n` of 2^-30 s, `gamma`
    /// of 2^-40; `tk` in seconds.
    GlonassEphemeris {
        station_id: u16,
        slot: u8,
        freqo: i8,
        svh: u8,
        age: u8,
        pos: [i32; 3],
        vel: [i32; 3],
        acc: [i32; 3],
        tau_n: i32,
        gamma: i32,
        tk: u32,
        week: u16,
        tod: u32,
    },
}

/// The characters whose codes are the `count` bytes of `p` that start at
/// bit `off`.
pub open spec fn latin1_field(p: Seq<u8>, off: int, count: nat) -> Seq<char> {
    Seq::new(count, |i: int| (bits_value(p, off + 8 * i, 8) as u8) as char)
}

/// A bit-reader failure, as an RTCM 3 error.
fn io<T>(r: Result<T, BitError>) -> (out: Result<T, Rtcm3Error>)
    ensures
        r is Ok ==> out == Ok::<T, Rtcm3Error>(r->Ok_0),
        r is Err ==> out == Err::<T, Rtcm3Error>(Rtcm3Error::IoError(r->Err_0)),
{
    match r {
        Ok(v) => Ok(v),
        Err(e) => Err(Rtcm3Error::IoError(e)),
    }
}

/// Reads `count` bytes as characters of the same codes.
fn read_latin1(reader: &mut BitReader, count: usize) -> (r: Result<String, BitError>)
    requires
        old(reader).wf(),
        count <= 255,
    ensures
        final(reader).wf(),
        final(reader).data() == old(reader).data(),
        old(reader).pos() + 8 * count <= old(reader).total_bits() ==> {
            &&& r is Ok
            &&& r->Ok_0@ == latin1_field(old(reader).data(), old(reader).pos() as int, count as nat)
            &&& final(reader).pos() == old(reader).pos() + 8 * count
        },
        old(reader).pos() + 8 * count > old(reader).total_bits() ==> {
            &&& r == Err::<String, BitError>(BitError::UnexpectedEof)
            &&& final(reader).pos() == old(reader).total_bits()
        },
{
    let mut text = String::new();
    let mut i: usize = 0;
    let ghost start = reader.pos();
    let ghost data = reader.data();
    proof {
        reader.lemma_pos_in_data();
    }
    while i < count
        invariant
            reader.wf(),
            reader.data() == data,
            data == old(reader).data(),
            start == old(reader).pos(),
            count <= 255,
            i <= count,
            reader.pos() == start + 8 * i,
            start + 8 * i <= reader.total_bits(),
            text@ == latin1_field(data, start as int, i as nat),
        decreases count - i,
    {
        let c = reader.read_bits(8)?;
        proof {
            lemma2_to64();
            lemma_bits_value_bound(data, start + 8 * i, 8);
        }
        push_char(&mut text, (c as u8) as char);
        proof {
            assert(text@ =~= latin1_field(data, start as int, (i + 1) as nat));
        }
        i = i + 1;
    }
    Ok(text)
}

/// Decoding of a 1029 text message from the frame bytes after the three
/// header bytes.
pub open spec fn text_message_decoded(p: Seq<u8>, r: Result<Rtcm3MessageType, Rtcm3Error>) -> bool {
    let n = bits_value(p, 57, 7);
    if p.len() * 8 >= 64 && p.len() * 8 >= 64 + 8 * n {
        &&& r matches Ok(Rtcm3MessageType::TextMessage { station_id, modified_julian_day, seconds_of_day, n_chars, message })
        &&& station_id == bits_value(p, 12, 12)
        &&& modified_julian_day == bits_value(p, 24, 16)
        &&& seconds_of_day == bits_value(p, 40, 17)
        &&& n_chars == n
        &&& message@ == latin1_field(p, 64, n)
    } else {
        r == Err::<Rtcm3MessageType, Rtcm3Error>(Rtcm3Error::IoError(BitError::UnexpectedEof))
    }
}

/// Decodes a 1029 text message from `payload`, the frame after its three
/// header bytes.
fn decode_type1029(payload: &[u8]) -> (r: Result<Rtcm3MessageType, Rtcm3Error>)
    requires
        payload@.len() <= 2048,
    ensures
        text_message_decoded(payload@, r),
{
    proof {
        lemma2_to64();
    }
    let mut bit_reader = BitReader::new(payload);
    io(bit_reader.skip_bits(12))?;
    let station_id = io(bit_reader.read_bits(12))?;
    let modified_julian_day = io(bit_reader.read_bits(16))?;
    let seconds_of_day = io(bit_reader.read_bits(17))?;
    let n_chars = io(bit_reader.read_bits(7))?;
    proof {
        lemma_bits_value_bound(payload@, 12, 12);
        lemma_bits_value_bound(payload@, 24, 16);
        lemma_bits_value_bound(payload@, 57, 7);
    }
    let message = io(read_latin1(&mut bit_reader, n_chars as usize))?;
    Ok(Rtcm3MessageType::TextMessage {
        station_id: station_id as u16,
        modified_julian_day: modified_julian_day as u16,
        seconds_of_day,
        n_chars: n_chars as u8,
        message,
    })
}

/// Decoding of a 1005 or 1006 station coordinate message carrying station
/// number `sid`: ITRF year, antenna height flag, the three 38-bit
/// two's-complement coordinates and, where flagged, the 16-bit antenna height.
pub open spec fn station_coordinates_decoded(p: Seq<u8>, sid: int, r: Result<Rtcm3MessageType, Rtcm3Error>) -> bool {
    let t = p.len() * 8;
    let h = bit_at(p, 30) == 1;
    if t < 150 || (h && t < 166) {
        r == Err::<Rtcm3MessageType, Rtcm3Error>(Rtcm3Error::IoError(BitError::UnexpectedEof))
    } else {
        r == Ok::<Rtcm3MessageType, Rtcm3Error>(Rtcm3MessageType::ReferenceStationCoordinates {
            station_id: sid as u16,
            itrf_year: bits_value(p, 24, 6) as u8,
            has_antenna_height: h,
            x: bits_signed(p, 36, 38) as i64,
            y: bits_signed(p, 74, 38) as i64,
            z: bits_signed(p, 112, 38) as i64,
            antenna_height: if h { Some(bits_value(p, 150, 16) as u16) } else { None },
        })
    }
}

/// Reads a 38-bit two's-complement field as its 6 high bits, signed, and its
/// 32 low bits.
fn read_signed38(reader: &mut BitReader) -> (r: Result<i64, Rtcm3Error>)
    requires
        old(reader).wf(),
    ensures
        final(reader).wf(),
        final(reader).data() == old(reader).data(),
        old(reader).pos() + 38 <= old(reader).total_bits() ==> {
            &&& r == Ok::<i64, Rtcm3Error>(bits_signed(old(reader).data(), old(reader).pos() as int, 38) as i64)
            &&& final(reader).pos() == old(reader).pos() + 38
        },
        old(reader).pos() + 38 > old(reader).total_bits() ==> r == Err::<i64, Rtcm3Error>(
            Rtcm3Error::IoError(BitError::UnexpectedEof),
        ),
{
    let ghost at = reader.pos() as int;
    let ghost data = reader.data();
    let hi = io(reader.read_bits_signed(6))?;
    let lo = io(reader.read_bits(32))?;
    proof {
        lemma2_to64();
        lemma_bits_value_concat(data, at, 6, 32);
        lemma_bits_value_bound(data, at, 6);
        lemma_bits_value_bound(data, at + 6, 32);
        let u6 = bits_value(data, at, 6);
        let l = bits_value(data, at + 6, 32);
        assert(pow2(5) == 32 && pow2(6) == 64 && pow2(32) == 0x1_0000_0000);
        vstd::arithmetic::power2::lemma2_to64_rest();
        assert(bits_value(data, at, 38) == u6 * 0x1_0000_0000 + l);
        assert(bits_signed(data, at, 38) == bits_signed(data, at, 6) * 0x1_0000_0000 + l) by (nonlinear_arith)
            requires
                bits_value(data, at, 38) == u6 * 0x1_0000_0000 + l,
                bits_signed(data, at, 6) == (if u6 >= 32 { u6 - 64 } else { u6 as int }),
                bits_signed(data, at, 38) == (if bits_value(data, at, 38) >= 0x20_0000_0000 {
                    bits_value(data, at, 38) - 0x40_0000_0000
                } else {
                    bits_value(data, at, 38) as int
                }),
                u6 < 64,
                l < 0x1_0000_0000,
        ;
    }
    Ok((hi as i64) * 4294967296 + (lo as i64))
}


/// The reference station number held in header bytes 4 and 5 of a frame.
pub open spec fn header_station_id(frame: Seq<u8>) -> int {
    (frame[4] % 16) * 256 + frame[5]
}

/// Decoding of a 1007 antenna descriptor.
pub open spec fn antenna_descriptor_decoded(frame: Seq<u8>, p: Seq<u8>, r: Result<Rtcm3MessageType, Rtcm3Error>) -> bool {
    let c = bits_value(p, 24, 8);
    if p.len() * 8 < 32 {
        r == Err::<Rtcm3MessageType, Rtcm3Error>(Rtcm3Error::IoError(BitError::UnexpectedEof))
    } else if c == 0 || c > 31 {
        &&& r matches Err(Rtcm3Error::ParseError(s))
        &&& s@ == "Invalid antenna descriptor count: "@ + decimal_text(c)
    } else if p.len() * 8 < 40 + 8 * c {
        r == Err::<Rtcm3MessageType, Rtcm3Error>(Rtcm3Error::IoError(BitError::UnexpectedEof))
    } else {
        &&& r matches Ok(Rtcm3MessageType::AntennaDescription { station_id, description, serial_number })
        &&& station_id == header_station_id(frame)
        &&& description@ == latin1_field(p, 32, c)
        &&& serial_number is None
    }
}

/// Decoding of a 1008 antenna descriptor and serial number.
pub open spec fn antenna_serial_decoded(p: Seq<u8>, r: Result<Rtcm3MessageType, Rtcm3Error>) -> bool {
    let c = bits_value(p, 24, 8);
    let sc = bits_value(p, (40 + 8 * c) as int, 8);
    if p.len() * 8 < 32 || p.len() * 8 < 48 + 8 * c || p.len() * 8 < 48 + 8 * c + 8 * sc {
        r == Err::<Rtcm3MessageType, Rtcm3Error>(Rtcm3Error::IoError(BitError::UnexpectedEof))
    } else {
        &&& r matches Ok(Rtcm3MessageType::AntennaDescription { station_id, description, serial_number })
        &&& station_id == bits_value(p, 12, 12)
        &&& description@ == latin1_field(p, 32, c)
        &&& serial_number matches Some(sn) && sn@ == latin1_field(p, (48 + 8 * c) as int, sc)
    }
}

/// Decoding of a 1033 receiver and antenna descriptor message: five
/// length-prefixed texts after the station number.
pub open spec fn receiver_antenna_decoded(p: Seq<u8>, r: Result<Rtcm3MessageType, Rtcm3Error>) -> bool {
    let l1 = bits_value(p, 24, 8);
    let o2 = (32 + 8 * l1) as int;
    let l2 = bits_value(p, o2, 8);
    let o3: int = o2 + 8 + 8 * l2;
    let l3 = bits_value(p, o3, 8);
    let o4: int = o3 + 8 + 8 * l3;
    let l4 = bits_value(p, o4, 8);
    let o5: int = o4 + 8 + 8 * l4;
    let l5 = bits_value(p, o5, 8);
    let end: int = o5 + 8 + 8 * l5;
    let t = (p.len() * 8) as int;
    if t < 32 || t < o2 + 8 || t < o3 + 8 || t < o4 + 8 || t < o5 + 8 || t < end {
        r == Err::<Rtcm3MessageType, Rtcm3Error>(Rtcm3Error::IoError(BitError::UnexpectedEof))
    } else {
        &&& r matches Ok(Rtcm3MessageType::ReceiverAntennaDescription {
            station_id,
            antenna_descriptor,
            antenna_serial,
            receiver_type,
            firmware_version,
            receiver_serial,
        })
        &&& station_id == bits_value(p, 12, 12)
        &&& antenna_descriptor@ == latin1_field(p, 32, l1)
        &&& antenna_serial@ == latin1_field(p, o2 + 8, l2)
        &&& receiver_type@ == latin1_field(p, o3 + 8, l3)
        &&& firmware_version@ == latin1_field(p, o4 + 8, l4)
        &&& receiver_serial@ == latin1_field(p, o5 + 8, l5)
    }
}

/// Decoding of a 1020 GLONASS ephemeris.
pub open spec fn glonass_ephemeris_decoded(p: Seq<u8>, r: Result<Rtcm3MessageType, Rtcm3Error>) -> bool {
    if p.len() * 8 >= 235 {
        &&& r matches Ok(Rtcm3MessageType::GlonassEphemeris {
            station_id, slot, freqo, svh, age, pos, vel, acc, tau_n, gamma, tk, week, tod,
        })
        &&& station_id == 0
        &&& slot == bits_value(p, 12, 6)
        &&& freqo == bits_signed(p, 18, 5)
        &&& svh == bits_value(p, 23, 1)
        &&& age == bits_value(p, 24, 5)
        &&& forall|i: int| 0 <= i < 3 ==> {
            &&& #[trigger] pos[i] == bits_signed(p, 29 + 56 * i, 27)
            &&& vel[i] == bits_signed(p, 56 + 56 * i, 24)
            &&& acc[i] == bits_signed(p, 80 + 56 * i, 5)
        }
        &&& tau_n == bits_signed(p, 197, 22)
        &&& gamma == bits_signed(p, 219, 11)
        &&& tk == bits_value(p, 230, 5) * 30
        &&& week == 0
        &&& tod == 0
    } else {
        r == Err::<Rtcm3MessageType, Rtcm3Error>(Rtcm3Error::IoError(BitError::UnexpectedEof))
    }
}

/// Decoding of a 1019 GPS ephemeris from the frame bytes after the three
/// header bytes.
pub open spec fn gps_ephemeris_decoded(p: Seq<u8>, r: Result<Rtcm3MessageType, Rtcm3Error>) -> bool {
    if p.len() * 8 >= 487 {
        &&& r matches Ok(Rtcm3MessageType::GpsEphemeris { station_id, prn, week, sva, code_l2, idot, iode, toc, af2, af1, af0, iodc, crs, deln, m0, cuc, e, cus, sqrt_a, toe, cic, omega0, cis, i0, crc, omega, omegad, tgd, svh, flag })
        &&& station_id == 0
        &&& prn == bits_value(p, 12, 6)
        &&& week == bits_value(p, 18, 10)
        &&& sva == bits_value(p, 28, 4)
        &&& code_l2 == bits_value(p, 32, 2)
        &&& idot == bits_signed(p, 34, 14)
        &&& iode == bits_value(p, 48, 8)
        &&& toc == bits_value(p, 56, 16) * 16
        &&& af2 == bits_signed(p, 72, 8)
        &&& af1 == bits_signed(p, 80, 16)
        &&& af0 == bits_signed(p, 96, 22)
        &&& iodc == bits_value(p, 118, 10)
        &&& crs == bits_signed(p, 128, 16)
        &&& deln == bits_signed(p, 144, 16)
        &&& m0 == bits_signed(p, 160, 32)
        &&& cuc == bits_signed(p, 192, 16)
        &&& e == bits_value(p, 208, 32)
        &&& cus == bits_signed(p, 240, 16)
        &&& sqrt_a == bits_value(p, 256, 32)
        &&& toe == bits_value(p, 288, 16) * 16
        &&& cic == bits_signed(p, 304, 16)
        &&& omega0 == bits_signed(p, 320, 32)
        &&& cis == bits_signed(p, 352, 16)
        &&& i0 == bits_signed(p, 368, 32)
        &&& crc == bits_signed(p, 400, 16)
        &&& omega == bits_signed(p, 416, 32)
        &&& omegad == bits_signed(p, 448, 24)
        &&& tgd == bits_signed(p, 472, 8)
        &&& svh == bits_value(p, 480, 6)
        &&& flag == bits_value(p, 486, 1)
    } else {
        r == Err::<Rtcm3MessageType, Rtcm3Error>(Rtcm3Error::IoError(BitError::UnexpectedEof))
    }
}

/// Decodes a 1019 GPS ephemeris from `payload`, the frame after its three
/// header bytes.
fn decode_type1019(payload: &[u8]) -> (r: Result<Rtcm3MessageType, Rtcm3Error>)
    requires
        payload@.len() <= 2048,
    ensures
        gps_ephemeris_decoded(payload@, r),
{
    proof {
        lemma2_to64();
    }
    let mut bit_reader = BitReader::new(payload);
    io(bit_reader.skip_bits(12))?;
    let prn = io(bit_reader.read_bits(6))?;
    let week = io(bit_reader.read_bits(10))?;
    let sva = io(bit_reader.read_bits(4))?;
    let code_l2 = io(bit_reader.read_bits(2))?;
    let idot_raw = io(bit_reader.read_bits_signed(14))?;
    let iode = io(bit_reader.read_bits(8))?;
    let toc_raw = io(bit_reader.read_bits(16))?;
    let af2_raw = io(bit_reader.read_bits_signed(8))?;
    let af1_raw = io(bit_reader.read_bits_signed(16))?;
    let af0_raw = io(bit_reader.read_bits_signed(22))?;
    let iodc = io(bit_reader.read_bits(10))?;
    let crs_raw = io(bit_reader.read_bits_signed(16))?;
    let deln_raw = io(bit_reader.read_bits_signed(16))?;
    let m0_raw = io(bit_reader.read_bits_signed(32))?;
    let cuc_raw = io(bit_reader.read_bits_signed(16))?;
    let e = io(bit_reader.read_bits(32))?;
    let cus_raw = io(bit_reader.read_bits_signed(16))?;
    let sqrt_a = io(bit_reader.read_bits(32))?;
    let toe_raw = io(bit_reader.read_bits(16))?;
    let cic_raw = io(bit_reader.read_bits_signed(16))?;
    let omega0_raw = io(bit_reader.read_bits_signed(32))?;
    let cis_raw = io(bit_reader.read_bits_signed(16))?;
    let i0_raw = io(bit_reader.read_bits_signed(32))?;
    let crc_raw = io(bit_reader.read_bits_signed(16))?;
    let omega_raw = io(bit_reader.read_bits_signed(32))?;
    let omegad_raw = io(bit_reader.read_bits_signed(24))?;
    let tgd_raw = io(bit_reader.read_bits_signed(8))?;
    let svh = io(bit_reader.read_bits(6))?;
    let flag = io(bit_reader.read_bits(1))?;
    proof {
        lemma_bits_value_bound(payload@, 12, 6);
        lemma_bits_value_bound(payload@, 18, 10);
        lemma_bits_value_bound(payload@, 28, 4);
        lemma_bits_value_bound(payload@, 32, 2);
        lemma_bits_value_bound(payload@, 48, 8);
        lemma_bits_value_bound(payload@, 56, 16);
        lemma_bits_value_bound(payload@, 118, 10);
        lemma_bits_value_bound(payload@, 288, 16);
        lemma_bits_value_bound(payload@, 480, 6);
        lemma_bits_value_bound(payload@, 486, 1);
    }
    Ok(Rtcm3MessageType::GpsEphemeris {
        station_id: 0,
        prn: prn as u8,
        week: week as u16,
        sva: sva as u8,
        code_l2: code_l2 as u8,
        idot: idot_raw,
        iode: iode as u8,
        toc: toc_raw * 16,
        af2: af2_raw,
        af1: af1_raw,
        af0: af0_raw,
        iodc: iodc as u16,
        crs: crs_raw,
        deln: deln_raw,
        m0: m0_raw,
        cuc: cuc_raw,
        e,
        cus: cus_raw,
        sqrt_a,
        toe: toe_raw * 16,
        cic: cic_raw,
        omega0: omega0_raw,
        cis: cis_raw,
        i0: i0_raw,
        crc: crc_raw,
        omega: omega_raw,
        omegad: omegad_raw,
        tgd: tgd_raw,
        svh: svh as u8,
        flag: flag as u8,
    })
}

/// Header bytes 4 and 5 as a 12-bit station number.
proof fn lemma_header_station(a: u16, b: u16)
    by (bit_vector)
    requires
        a < 256,
        b < 256,
    ensures
        (((a & 0x0Fu16) << 8u16) | b) == (a % 16) * 256 + b,
{
}

/// A frame's message number: the 12 bits after the three header bytes.
pub open spec fn frame_message_type(frame: Seq<u8>) -> u16 {
    ((frame[3] * 16 + frame[4] / 16) % 4096) as u16
}

/// Whether `t` is the number of an MSM4-7 message of GPS, GLONASS, Galileo or BeiDou.
pub open spec fn is_msm_type(t: u16) -> bool {
    (1074 <= t <= 1077) || (1084 <= t <= 1087) || (1094 <= t <= 1097) || (1124 <= t <= 1127)
}

/// What decoding the complete frame `frame` (header, body and CRC) gives.
pub open spec fn message_decoded(frame: Seq<u8>, r: Result<Rtcm3MessageType, Rtcm3Error>) -> bool {
    let t = frame_message_type(frame);
    let p = frame.subrange(3, frame.len() as int);
    if is_msm_type(t) {
        let body = frame.subrange(3, frame.len() - 3);
        if msm_complete(body, msm_type_of(t)) {
            r is Ok && msm_decoded(body, t, Ok::<Rtcm3MessageType, MsmError>(r->Ok_0))
        } else {
            r matches Err(Rtcm3Error::ParseError(s))
                && s@ == "MSM解析错误: "@ + msm_error_text(MsmError::IoError(BitError::UnexpectedEof))
        }
    } else if t == 1005 || t == 1006 {
        station_coordinates_decoded(p, if t == 1005 { header_station_id(frame) } else { bits_value(p, 12, 12) as int }, r)
    } else if t == 1007 {
        antenna_descriptor_decoded(frame, p, r)
    } else if t == 1008 {
        antenna_serial_decoded(p, r)
    } else if t == 1019 {
        gps_ephemeris_decoded(p, r)
    } else if t == 1020 {
        glonass_ephemeris_decoded(p, r)
    } else if t == 1029 {
        text_message_decoded(p, r)
    } else if t == 1033 {
        receiver_antenna_decoded(p, r)
    } else {
        &&& r matches Ok(Rtcm3MessageType::Raw { msg_type, payload })
        &&& msg_type == t
        &&& payload@ == frame
    }
}

/// The GLONASS frequency channel of a decoded 1020 message is the
/// two's-complement value of its 5-bit field (bits 18 to 22 of the message):
/// it lies in -16..=15, and is the field's value where the field's first bit
/// is clear and that value less 32 where it is set.
pub proof fn lemma_glonass_channel_signed(p: Seq<u8>, r: Result<Rtcm3MessageType, Rtcm3Error>)
    requires
        glonass_ephemeris_decoded(p, r),
        r is Ok,
    ensures
        r->Ok_0 matches Rtcm3MessageType::GlonassEphemeris { freqo, .. } && -16 <= freqo <= 15 && (bit_at(p, 18) == 1
            ==> freqo == bits_value(p, 18, 5) - 32) && (bit_at(p, 18) != 1 ==> freqo == bits_value(p, 18, 5)),
{
    lemma2_to64();
    lemma_bits_value_concat(p, 18, 1, 4);
    lemma_bits_value_bound(p, 19, 4);
    assert(bits_value(p, 18, 0) == 0);
    assert(bits_value(p, 18, 1) == bits_value(p, 18, 0) * 2 + bit_at(p, 18));
    assert(bit_at(p, 18) < 2);
}

/// Every frame whose message number is an MSM4-7 number of GPS, GLONASS,
/// Galileo or BeiDou decodes as an MSM message: where its body holds every
/// field, to the message of that number's flavour (its last digit) and
/// system; where the body ends early, to an error.
pub proof fn lemma_msm_frames_decode(frame: Seq<u8>, r: Result<Rtcm3MessageType, Rtcm3Error>)
    requires
        frame.len() >= 6,
        is_msm_type(frame_message_type(frame)),
        message_decoded(frame, r),
    ensures
        msm_complete(frame.subrange(3, frame.len() - 3), msm_type_of(frame_message_type(frame))) ==> {
            &&& r is Ok
            &&& msm_variant(r->Ok_0) == Some(
                (msm_type_of(frame_message_type(frame)), gnss_type_of(frame_message_type(frame))),
            )
        },
        !msm_complete(frame.subrange(3, frame.len() - 3), msm_type_of(frame_message_type(frame))) ==> r is Err,
{
}

/// Where the RTCM 3 frame synchroniser stands.
#[derive(Debug, Clone, Copy, PartialEq, Eq, Structural)]
pub enum Rtcm3ParserState {
    /// Looking for the 0xD3 preamble.
    FindPreamble,
    /// Reading the two bytes that hold the body length.
    ReadLength,
    /// Reading the body and the CRC.
    ReadMessage,
}

/// Synchronises on RTCM 3 frames a byte at a time and decodes each complete,
/// CRC-checked frame.
#[derive(Debug)]
pub struct Rtcm3Parser {
    /// The bytes of the frame read so far, from the preamble on.
    pub buffer: Vec<u8>,
    /// Where the synchroniser stands.
    pub state: Rtcm3ParserState,
    /// The body length of the frame being read.
    pub current_length: usize,
    /// The message number of the last frame decoded.
    pub current_type: u16,
}

impl Rtcm3Parser {
    /// The parser's invariant: a body length fits in the 10-bit field.
    pub open spec fn wf(&self) -> bool {
        self.current_length < 1024
    }

    /// What one call of [`Rtcm3Parser::process_byte`] does.
    pub open spec fn process_byte_post(
        old: Rtcm3Parser,
        new: Rtcm3Parser,
        byte: u8,
        r: Result<Option<Rtcm3MessageType>, Rtcm3Error>,
    ) -> bool {
        &&& new.wf()
        &&& match old.state {
            Rtcm3ParserState::FindPreamble => {
                &&& r == Ok::<Option<Rtcm3MessageType>, Rtcm3Error>(None)
                &&& new.current_length == old.current_length
                &&& new.current_type == old.current_type
                &&& byte == 0xD3 ==> new.buffer@ == seq![0xD3u8] && new.state == Rtcm3ParserState::ReadLength
                &&& byte != 0xD3 ==> new.buffer@ == old.buffer@ && new.state == old.state
            },
            Rtcm3ParserState::ReadLength => {
                let f = old.buffer@.push(byte);
                &&& r == Ok::<Option<Rtcm3MessageType>, Rtcm3Error>(None)
                &&& new.buffer@ == f
                &&& new.current_type == old.current_type
                &&& f.len() == 3 ==> new.state == Rtcm3ParserState::ReadMessage
                    && new.current_length == (f[1] % 4) * 256 + f[2]
                &&& f.len() != 3 ==> new.state == old.state && new.current_length == old.current_length
            },
            Rtcm3ParserState::ReadMessage => {
                let f = old.buffer@.push(byte);
                &&& new.buffer@ == f
                &&& new.current_length == old.current_length
                &&& f.len() != old.current_length + 6 ==> {
                    &&& r == Ok::<Option<Rtcm3MessageType>, Rtcm3Error>(None)
                    &&& new.state == old.state
                    &&& new.current_type == old.current_type
                }
                &&& f.len() == old.current_length + 6 && !frame_crc_ok(f) ==> {
                    &&& r == Err::<Option<Rtcm3MessageType>, Rtcm3Error>(Rtcm3Error::CrcError)
                    &&& new.state == Rtcm3ParserState::FindPreamble
                    &&& new.current_type == old.current_type
                }
                &&& f.len() == old.current_length + 6 && frame_crc_ok(f) ==> {
                    &&& new.current_type == frame_message_type(f)
                    &&& r is Ok ==> {
                        &&& r->Ok_0 is Some
                        &&& message_decoded(f, Ok(r->Ok_0->Some_0))
                        &&& new.state == Rtcm3ParserState::FindPreamble
                    }
                    &&& r is Err ==> {
                        &&& message_decoded(f, Err(r->Err_0))
                        &&& new.state == Rtcm3ParserState::ReadMessage
                    }
                }
            },
        }
    }

    /// A parser looking for a preamble, with an empty buffer.
    pub fn new() -> (r: Self)
        ensures
            r.wf(),
            r.buffer@ == Seq::<u8>::empty(),
            r.state == Rtcm3ParserState::FindPreamble,
            r.current_length == 0,
            r.current_type == 0,
    {
        Self {
            buffer: Vec::with_capacity(1024),
            state: Rtcm3ParserState::FindPreamble,
            current_length: 0,
            current_type: 0,
        }
    }

    /// Feeds one byte to the synchroniser; a complete frame whose CRC checks
    /// is decoded and returned. A frame whose CRC fails is reported and
    /// dropped; a frame that fails to decode is reported, and the parser then
    /// stays in the body-reading state.
    pub fn process_byte(&mut self, byte: u8) -> (r: Result<Option<Rtcm3MessageType>, Rtcm3Error>)
        requires
            old(self).wf(),
        ensures
            Self::process_byte_post(*old(self), *final(self), byte, r),
    {
        match self.state {
            Rtcm3ParserState::FindPreamble => {
                if byte == 0xD3 {
                    self.buffer.clear();
                    self.buffer.push(byte);
                    self.state = Rtcm3ParserState::ReadLength;
                    proof {
                        assert(self.buffer@ =~= seq![0xD3u8]);
                    }
                }
                Ok(None)
            },
            Rtcm3ParserState::ReadLength => {
                self.buffer.push(byte);
                if self.buffer.len() == 3 {
                    let b1 = self.buffer[1] as usize;
                    let b2 = self.buffer[2] as usize;
                    proof {
                        assert(((b1 & 0x03usize) << 8usize) | b2 == (b1 % 4) * 256 + b2) by (bit_vector)
                            requires b1 < 256, b2 < 256;
                    }
                    self.current_length = ((b1 & 0x03) << 8) | b2;
                    self.state = Rtcm3ParserState::ReadMessage;
                }
                Ok(None)
            },
            Rtcm3ParserState::ReadMessage => {
                self.buffer.push(byte);
                if self.buffer.len() == self.current_length + 6 {
                    if !check_crc(self.buffer.as_slice()) {
                        self.state = Rtcm3ParserState::FindPreamble;
                        return Err(Rtcm3Error::CrcError);
                    }
                    let msg = self.parse_message()?;
                    self.state = Rtcm3ParserState::FindPreamble;
                    Ok(Some(msg))
                } else {
                    Ok(None)
                }
            },
        }
    }

    /// Decodes the complete frame in the buffer by its message number.
    fn parse_message(&mut self) -> (r: Result<Rtcm3MessageType, Rtcm3Error>)
        requires
            6 <= old(self).buffer@.len() <= 1029,
        ensures
            final(self).buffer == old(self).buffer,
            final(self).state == old(self).state,
            final(self).current_length == old(self).current_length,
            final(self).current_type == frame_message_type(old(self).buffer@),
            message_decoded(old(self).buffer@, r),
    {
        let b3 = self.buffer[3] as u16;
        let b4 = self.buffer[4] as u16;
        proof {
            assert((((b3 << 4u16) | (b4 >> 4u16)) & 0xFFFu16) == (b3 * 16 + b4 / 16) % 4096) by (bit_vector)
                requires b3 < 256, b4 < 256;
        }
        self.current_type = ((b3 << 4) | (b4 >> 4)) & 0xFFF;
        let t = self.current_type;
        let len = self.buffer.len();
        if (1074 <= t && t <= 1077) || (1084 <= t && t <= 1087) || (1094 <= t && t <= 1097) || (1124 <= t && t <= 1127) {
            let body = slice_subrange(self.buffer.as_slice(), 3, len - 3);
            match parse_msm(body, t) {
                Ok(m) => Ok(m),
                Err(e) => {
                    let mut text = String::from_str("MSM解析错误: ");
                    let detail = e.describe();
                    text.append(detail.as_str());
                    Err(Rtcm3Error::ParseError(text))
                },
            }
        } else if t == 1005 {
            self.parse_type1005()
        } else if t == 1006 {
            self.parse_type1006()
        } else if t == 1007 {
            self.parse_type1007()
        } else if t == 1008 {
            self.parse_type1008()
        } else if t == 1019 {
            self.parse_type1019()
        } else if t == 1020 {
            self.parse_type1020()
        } else if t == 1029 {
            self.parse_type1029()
        } else if t == 1033 {
            self.parse_type1033()
        } else {
            Ok(Rtcm3MessageType::Raw { msg_type: t, payload: self.buffer.clone() })
        }
    }

    /// The frame after its three header bytes.
    fn payload(&self) -> (p: &[u8])
        requires
            3 <= self.buffer@.len(),
        ensures
            p@ == self.buffer@.subrange(3, self.buffer@.len() as int),
    {
        slice_subrange(self.buffer.as_slice(), 3, self.buffer.len())
    }

    /// Decodes a 1005 reference station message.
    fn parse_type1005(&self) -> (r: Result<Rtcm3MessageType, Rtcm3Error>)
        requires
            6 <= self.buffer@.len() <= 1029,
        ensures
            station_coordinates_decoded(
                self.buffer@.subrange(3, self.buffer@.len() as int),
                header_station_id(self.buffer@),
                r,
            ),
    {
        let ghost p = self.buffer@.subrange(3, self.buffer@.len() as int);
        let b4 = self.buffer[4] as u16;
        let b5 = self.buffer[5] as u16;
        proof {
            lemma2_to64();
            lemma_header_station(b4, b5);
        }
        let station_id = ((b4 & 0x0F) << 8) | b5;
        let mut bit_reader = BitReader::new(self.payload());
        io(bit_reader.skip_bits(24))?;
        let itrf_year = io(bit_reader.read_bits(6))?;
        let has_antenna_height = io(bit_reader.read_bit())?;
        io(bit_reader.skip_bits(4))?;
        let _single_receiver = io(bit_reader.read_bit())?;
        let x = read_signed38(&mut bit_reader)?;
        let y = read_signed38(&mut bit_reader)?;
        let z = read_signed38(&mut bit_reader)?;
        let antenna_height = if has_antenna_height {
            let h = io(bit_reader.read_bits(16))?;
            Some(h as u16)
        } else {
            None
        };
        proof {
            lemma_bits_value_bound(p, 24, 6);
            lemma_bits_value_bound(p, 150, 16);
        }
        Ok(Rtcm3MessageType::ReferenceStationCoordinates {
            station_id,
            itrf_year: itrf_year as u8,
            has_antenna_height,
            x,
            y,
            z,
            antenna_height,
        })
    }

    /// Decodes a 1006 reference station message with antenna height.
    fn parse_type1006(&self) -> (r: Result<Rtcm3MessageType, Rtcm3Error>)
        requires
            6 <= self.buffer@.len() <= 1029,
        ensures
            station_coordinates_decoded(
                self.buffer@.subrange(3, self.buffer@.len() as int),
                bits_value(self.buffer@.subrange(3, self.buffer@.len() as int), 12, 12) as int,
                r,
            ),
    {
        let ghost p = self.buffer@.subrange(3, self.buffer@.len() as int);
        proof {
            lemma2_to64();
            lemma_bits_value_bound(p, 12, 12);
        }
        let mut bit_reader = BitReader::new(self.payload());
        io(bit_reader.skip_bits(12))?;
        let station_id = io(bit_reader.read_bits(12))?;
        let itrf_year = io(bit_reader.read_bits(6))?;
        let has_antenna_height = io(bit_reader.read_bit())?;
        io(bit_reader.skip_bits(4))?;
        let _single_receiver = io(bit_reader.read_bit())?;
        let x = read_signed38(&mut bit_reader)?;
        let y = read_signed38(&mut bit_reader)?;
        let z = read_signed38(&mut bit_reader)?;
        let antenna_height = if has_antenna_height {
            let h = io(bit_reader.read_bits(16))?;
            Some(h as u16)
        } else {
            None
        };
        proof {
            lemma_bits_value_bound(p, 24, 6);
            lemma_bits_value_bound(p, 150, 16);
        }
        Ok(Rtcm3MessageType::ReferenceStationCoordinates {
            station_id: station_id as u16,
            itrf_year: itrf_year as u8,
            has_antenna_height,
            x,
            y,
            z,
            antenna_height,
        })
    }

    /// Decodes a 1007 antenna descriptor message.
    fn parse_type1007(&self) -> (r: Result<Rtcm3MessageType, Rtcm3Error>)
        requires
            6 <= self.buffer@.len() <= 1029,
            self.current_type == 1007,
        ensures
            antenna_descriptor_decoded(self.buffer@, self.buffer@.subrange(3, self.buffer@.len() as int), r),
    {
        let b4 = self.buffer[4] as u16;
        let b5 = self.buffer[5] as u16;
        proof {
            lemma_header_station(b4, b5);
        }
        let station_id = ((b4 & 0x0F) << 8) | b5;
        let payload = self.payload();
        proof {
            lemma2_to64();
            lemma_bits_value_bound(payload@, 24, 8);
        }
        let mut bit_reader = BitReader::new(payload);
        io(bit_reader.skip_bits(24))?;
        let desc_count = io(bit_reader.read_bits(8))? as usize;
        if desc_count == 0 || desc_count > 31 {
            return Err(Rtcm3Error::ParseError(
                text_with_number("Invalid antenna descriptor count: ", desc_count as u64),
            ));
        }
        let description = io(read_latin1(&mut bit_reader, desc_count))?;
        let _antenna_setup_id = io(bit_reader.read_bits(8))?;
        let serial_number = if self.current_type == 1008 {
            let serial_count = io(bit_reader.read_bits(8))? as usize;
            if serial_count > 31 {
                return Err(Rtcm3Error::ParseError(
                    text_with_number("Invalid antenna serial number length: ", serial_count as u64),
                ));
            }
            let serial = io(read_latin1(&mut bit_reader, serial_count))?;
            Some(serial)
        } else {
            None
        };
        Ok(Rtcm3MessageType::AntennaDescription { station_id, description, serial_number })
    }

    /// Decodes a 1008 antenna descriptor and serial number message.
    fn parse_type1008(&self) -> (r: Result<Rtcm3MessageType, Rtcm3Error>)
        requires
            6 <= self.buffer@.len() <= 1029,
        ensures
            antenna_serial_decoded(self.buffer@.subrange(3, self.buffer@.len() as int), r),
    {
        let payload = self.payload();
        let ghost p = payload@;
        proof {
            lemma2_to64();
            lemma_bits_value_bound(p, 12, 12);
            lemma_bits_value_bound(p, 24, 8);
        }
        let mut bit_reader = BitReader::new(payload);
        io(bit_reader.skip_bits(12))?;
        let station_id = io(bit_reader.read_bits(12))?;
        let desc_count = io(bit_reader.read_bits(8))? as usize;
        let description = io(read_latin1(&mut bit_reader, desc_count))?;
        let _antenna_setup_id = io(bit_reader.read_bits(8))?;
        let serial_raw = io(bit_reader.read_bits(8))?;
        proof {
            lemma_bits_value_bound(p, 40 + 8 * desc_count, 8);
        }
        let serial_count = serial_raw as usize;
        let serial_number = io(read_latin1(&mut bit_reader, serial_count))?;
        Ok(Rtcm3MessageType::AntennaDescription {
            station_id: station_id as u16,
            description,
            serial_number: Some(serial_number),
        })
    }

    /// Decodes a 1019 GPS ephemeris message.
    fn parse_type1019(&self) -> (r: Result<Rtcm3MessageType, Rtcm3Error>)
        requires
            6 <= self.buffer@.len() <= 1029,
        ensures
            gps_ephemeris_decoded(self.buffer@.subrange(3, self.buffer@.len() as int), r),
    {
        decode_type1019(self.payload())
    }

    /// Decodes a 1020 GLONASS ephemeris message.
    #[verifier::loop_isolation(false)]
    #[verifier::spinoff_prover]
    #[verifier::rlimit(50)]
    fn parse_type1020(&self) -> (r: Result<Rtcm3MessageType, Rtcm3Error>)
        requires
            6 <= self.buffer@.len() <= 1029,
        ensures
            glonass_ephemeris_decoded(self.buffer@.subrange(3, self.buffer@.len() as int), r),
    {
        let payload = self.payload();
        let ghost p = payload@;
        proof {
            lemma2_to64();
            lemma_bits_value_bound(p, 12, 6);
            lemma_bits_value_bound(p, 23, 1);
            lemma_bits_value_bound(p, 24, 5);
            lemma_bits_value_bound(p, 230, 5);
            crate::util::bits::lemma_bits_signed_bound(p, 18, 5);
        }
        let mut bit_reader = BitReader::new(payload);
        io(bit_reader.skip_bits(12))?;
        let slot = io(bit_reader.read_bits(6))?;
        let freqo = io(bit_reader.read_bits_signed(5))?;
        let svh = io(bit_reader.read_bits(1))?;
        let age = io(bit_reader.read_bits(5))?;
        let mut pos = [0i32; 3];
        let mut vel = [0i32; 3];
        let mut acc = [0i32; 3];
        let mut i: usize = 0;
        while i < 3
            invariant
                i <= 3,
                bit_reader.wf(),
                bit_reader.data() == p,
                bit_reader.pos() == 29 + 56 * i,
                bit_reader.pos() <= bit_reader.total_bits(),
                forall|j: int| 0 <= j < i ==> {
                    &&& #[trigger] pos[j] == bits_signed(p, 29 + 56 * j, 27)
                    &&& vel[j] == bits_signed(p, 56 + 56 * j, 24)
                    &&& acc[j] == bits_signed(p, 80 + 56 * j, 5)
                },
            decreases 3 - i,
        {
            let pv = io(bit_reader.read_bits_signed(27))?;
            let vv = io(bit_reader.read_bits_signed(24))?;
            let av = io(bit_reader.read_bits_signed(5))?;
            let ghost (pos0, vel0, acc0) = (pos, vel, acc);
            pos[i] = pv;
            vel[i] = vv;
            acc[i] = av;
            proof {
                assert(pv == bits_signed(p, 29 + 56 * i, 27));
                assert(vv == bits_signed(p, 56 + 56 * i, 24));
                assert(av == bits_signed(p, 80 + 56 * i, 5));
                assert forall|j: int| 0 <= j < i + 1 implies {
                    &&& #[trigger] pos[j] == bits_signed(p, 29 + 56 * j, 27)
                    &&& vel[j] == bits_signed(p, 56 + 56 * j, 24)
                    &&& acc[j] == bits_signed(p, 80 + 56 * j, 5)
                } by {
                    if j < i {
                        assert(pos[j] == pos0[j]);
                        assert(vel[j] == vel0[j]);
                        assert(acc[j] == acc0[j]);
                    }
                }
            }
            i = i + 1;
        }
        let tau_n = io(bit_reader.read_bits_signed(22))?;
        let gamma = io(bit_reader.read_bits_signed(11))?;
        let tk = io(bit_reader.read_bits(5))?;
        Ok(Rtcm3MessageType::GlonassEphemeris {
            station_id: 0,
            slot: slot as u8,
            freqo: freqo as i8,
            svh: svh as u8,
            age: age as u8,
            pos,
            vel,
            acc,
            tau_n,
            gamma,
            tk: tk * 30,
            week: 0,
            tod: 0,
        })
    }

    /// Decodes a 1029 text message.
    fn parse_type1029(&self) -> (r: Result<Rtcm3MessageType, Rtcm3Error>)
        requires
            6 <= self.buffer@.len() <= 1029,
        ensures
            text_message_decoded(self.buffer@.subrange(3, self.buffer@.len() as int), r),
    {
        decode_type1029(self.payload())
    }

    /// Decodes a 1033 receiver and antenna descriptor message.
    fn parse_type1033(&self) -> (r: Result<Rtcm3MessageType, Rtcm3Error>)
        requires
            6 <= self.buffer@.len() <= 1029,
        ensures
            receiver_antenna_decoded(self.buffer@.subrange(3, self.buffer@.len() as int), r),
    {
        let payload = self.payload();
        let ghost p = payload@;
        proof {
            lemma2_to64();
            lemma_bits_value_bound(p, 12, 12);
        }
        let mut bit_reader = BitReader::new(payload);
        io(bit_reader.skip_bits(12))?;
        let station_id = io(bit_reader.read_bits(12))?;
        let ant_desc_len = read_length(&mut bit_reader)?;
        let antenna_descriptor = io(read_latin1(&mut bit_reader, ant_desc_len))?;
        let ant_serial_len = read_length(&mut bit_reader)?;
        let antenna_serial = io(read_latin1(&mut bit_reader, ant_serial_len))?;
        let rec_type_len = read_length(&mut bit_reader)?;
        let receiver_type = io(read_latin1(&mut bit_reader, rec_type_len))?;
        let firmware_len = read_length(&mut bit_reader)?;
        let firmware_version = io(read_latin1(&mut bit_reader, firmware_len))?;
        let rec_serial_len = read_length(&mut bit_reader)?;
        let receiver_serial = io(read_latin1(&mut bit_reader, rec_serial_len))?;
        Ok(Rtcm3MessageType::ReceiverAntennaDescription {
            station_id: station_id as u16,
            antenna_descriptor,
            antenna_serial,
            receiver_type,
            firmware_version,
            receiver_serial,
        })
    }
}

/// Reads an 8-bit length field.
fn read_length(reader: &mut BitReader) -> (r: Result<usize, Rtcm3Error>)
    requires
        old(reader).wf(),
    ensures
        final(reader).wf(),
        final(reader).data() == old(reader).data(),
        old(reader).pos() + 8 <= old(reader).total_bits() ==> {
            &&& r is Ok
            &&& r->Ok_0 as nat == bits_value(old(reader).data(), old(reader).pos() as int, 8)
            &&& r->Ok_0 <= 255
            &&& final(reader).pos() == old(reader).pos() + 8
        },
        old(reader).pos() + 8 > old(reader).total_bits() ==> {
            &&& r == Err::<usize, Rtcm3Error>(Rtcm3Error::IoError(BitError::UnexpectedEof))
            &&& final(reader).pos() == old(reader).total_bits()
        },
{
    let v = io(reader.read_bits(8))?;
    proof {
        lemma2_to64();
        lemma_bits_value_bound(old(reader).data(), old(reader).pos() as int, 8);
    }
    Ok(v as usize)
}

/// The three bytes, most significant first, that carry a 24-bit checksum `c`.
pub open spec fn crc_bytes(c: u32) -> Seq<u8> {
    seq![(c >> 16u32) as u8, ((c >> 8u32) & 0xFFu32) as u8, (c & 0xFFu32) as u8]
}

/// A frame made of at least three bytes followed by the big-endian bytes of
/// their table CRC-24Q passes the frame check.
pub proof fn lemma_crc_appended_passes(data: Seq<u8>)
    requires
        data.len() >= 3,
    ensures
        frame_crc_ok(data + crc_bytes(crc24q_by_table(data))),
{
    let c = crc24q_by_table(data);
    lemma_crc24q_bounds(data);
    let f = data + crc_bytes(c);
    assert(f.take(f.len() - 3) =~= data);
    let a = (c >> 16u32) as u8;
    let b = ((c >> 8u32) & 0xFFu32) as u8;
    let d = (c & 0xFFu32) as u8;
    assert(a as int * 65536 + b as int * 256 + d as int == c as int) by (bit_vector)
        requires
            c < 0x1000000u32,
            a == (c >> 16u32) as u8,
            b == ((c >> 8u32) & 0xFFu32) as u8,
            d == (c & 0xFFu32) as u8,
    ;
}

/// Whether `f` is one whole RTCM 3 frame: the preamble, a length field that
/// covers the rest, and a matching CRC.
pub open spec fn is_frame(f: Seq<u8>) -> bool {
    &&& f.len() >= 6
    &&& f[0] == 0xD3
    &&& f.len() == (f[1] % 4) * 256 + f[2] + 6
    &&& frame_crc_ok(f)
}

/// Where a parser stands after the first `i` bytes of frame `f`, fed from the
/// preamble search.
pub open spec fn reading_frame(p: Rtcm3Parser, f: Seq<u8>, i: int) -> bool {
    &&& p.buffer@ == f.take(i)
    &&& i < 3 ==> p.state == Rtcm3ParserState::ReadLength
    &&& i >= 3 ==> p.state == Rtcm3ParserState::ReadMessage && p.current_length == (f[1] % 4) * 256 + f[2]
}

/// Feeding the first `i` bytes of a frame gives nothing, and leaves the
/// parser reading the frame.
proof fn lemma_frame_prefix(
    states: Seq<Rtcm3Parser>,
    results: Seq<Result<Option<Rtcm3MessageType>, Rtcm3Error>>,
    f: Seq<u8>,
    i: int,
)
    requires
        is_frame(f),
        states.len() == f.len() + 1,
        results.len() == f.len(),
        states[0].state == Rtcm3ParserState::FindPreamble,
        forall|j: int| 0 <= j < f.len() ==> #[trigger] Rtcm3Parser::process_byte_post(states[j], states[j + 1], f[j], results[j]),
        1 <= i < f.len(),
    ensures
        reading_frame(states[i], f, i),
        forall|j: int| 0 <= j < i ==> results[j] == Ok::<Option<Rtcm3MessageType>, Rtcm3Error>(None),
    decreases i,
{
    let k = i - 1;
    assert(Rtcm3Parser::process_byte_post(states[k], states[k + 1], f[k], results[k]));
    if i == 1 {
        assert(f.take(1) =~= seq![0xD3u8]);
    } else {
        lemma_frame_prefix(states, results, f, i - 1);
        assert(f.take(i - 1).push(f[i - 1]) =~= f.take(i));
        assert(f.take(i).len() == i);
    }
}

/// Fed byte by byte to a parser that is looking for a preamble, one whole
/// frame gives nothing until its last byte; its last byte gives the frame's
/// decoding, a message or the error that decoding it reports.
pub proof fn lemma_frame_delivered(
    states: Seq<Rtcm3Parser>,
    results: Seq<Result<Option<Rtcm3MessageType>, Rtcm3Error>>,
    f: Seq<u8>,
)
    requires
        is_frame(f),
        states.len() == f.len() + 1,
        results.len() == f.len(),
        states[0].state == Rtcm3ParserState::FindPreamble,
        forall|j: int| 0 <= j < f.len() ==> #[trigger] Rtcm3Parser::process_byte_post(states[j], states[j + 1], f[j], results[j]),
    ensures
        forall|j: int| 0 <= j < f.len() - 1 ==> results[j] == Ok::<Option<Rtcm3MessageType>, Rtcm3Error>(None),
        results.last() != Ok::<Option<Rtcm3MessageType>, Rtcm3Error>(None),
        results.last() matches Ok(Some(m)) ==> message_decoded(f, Ok(m)),
        results.last() matches Err(e) ==> message_decoded(f, Err(e)),
{
    let n = f.len() as int;
    lemma_frame_prefix(states, results, f, n - 1);
    let k = n - 1;
    assert(Rtcm3Parser::process_byte_post(states[k], states[k + 1], f[k], results[k]));
    assert(f.take(n - 1).push(f[n - 1]) =~= f);
}

} // verus!
