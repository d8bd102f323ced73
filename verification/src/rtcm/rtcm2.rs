//! RTCM 2.x frames: synchronisation on the 0x66 preamble, the CRC-24Q frame
//! check, the message header, and the differential correction (types 1 and
//! 2) and reference station (type 3) messages, with fields unscaled. A frame
//! is a 6-byte header (preamble, type, station and length field, then the
//! second header word), `L` three-byte body words, where `L` is the 10-bit
//! length field, and a 3-byte checksum: `6 + 3L + 3` bytes in all.

use vstd::prelude::*;
use vstd::string::*;
use vstd::slice::slice_subrange;
use vstd::arithmetic::power2::lemma2_to64;
use crate::util::bits::{BitError, BitReader, bits_value, bits_signed, lemma_bits_value_bound, lemma_bits_signed_bound};
use crate::rtcm::crc24q::{crc24q, crc24q_byte, crc24q_shift, lemma_crc24q_shift_bound, lemma_crc24q_bounds};
use crate::rtcm::rtcm3::be24;

verus! {

/// Why an RTCM 2 frame could not be delivered as a message.
#[derive(Debug, Clone)]
pub enum Rtcm2Error {
    /// No preamble was found.
    SyncError,
    /// The frame's checksum did not match its contents.
    CrcError,
    /// The length field was not valid.
    InvalidLength(usize),
    /// The message type was not valid.
    InvalidType(u16),
    /// The frame ended before a field.
    IoError(BitError),
    /// A message body could not be decoded.
    ParseError(String),
}

/// RTCM 2 message types.
#[derive(Debug, Clone, Copy, PartialEq, Eq, Structural)]
pub enum Rtcm2MessageType {
    /// Type 1: differential GPS corrections.
    Type1,
    /// Type 2: delta differential GPS corrections.
    Type2,
    /// Type 3: GPS reference station parameters.
    Type3,
    /// Type 9: GPS partial correction set.
    Type9,
    /// Type 18: RTK uncorrected carrier phases.
    Type18,
    /// Type 19: RTK uncorrected pseudoranges.
    Type19,
    /// Any other type.
    Other(u16),
}

/// The message type that a type number names.
pub open spec fn rtcm2_type_of(type_num: u16) -> Rtcm2MessageType {
    if type_num == 1 {
        Rtcm2MessageType::Type1
    } else if type_num == 2 {
        Rtcm2MessageType::Type2
    } else if type_num == 3 {
        Rtcm2MessageType::Type3
    } else if type_num == 9 {
        Rtcm2MessageType::Type9
    } else if type_num == 18 {
        Rtcm2MessageType::Type18
    } else if type_num == 19 {
        Rtcm2MessageType::Type19
    } else {
        Rtcm2MessageType::Other(type_num)
    }
}

/// The type number that a message type stands for.
pub open spec fn rtcm2_type_number(t: Rtcm2MessageType) -> u16 {
    match t {
        Rtcm2MessageType::Type1 => 1,
        Rtcm2MessageType::Type2 => 2,
        Rtcm2MessageType::Type3 => 3,
        Rtcm2MessageType::Type9 => 9,
        Rtcm2MessageType::Type18 => 18,
        Rtcm2MessageType::Type19 => 19,
        Rtcm2MessageType::Other(n) => n,
    }
}

/// A message type stands for the number it was made from, so different
/// numbers give different types; and the numbers 1, 2, 3, 9, 18 and 19 give
/// their named types, any other number an unnamed one.
pub proof fn lemma_rtcm2_type_number(n: u16, m: u16)
    ensures
        rtcm2_type_number(rtcm2_type_of(n)) == n,
        rtcm2_type_of(n) == rtcm2_type_of(m) ==> n == m,
        (rtcm2_type_of(n) is Other) <==> !(n == 1 || n == 2 || n == 3 || n == 9 || n == 18 || n == 19),
{
}

impl From<u16> for Rtcm2MessageType {
    fn from(type_num: u16) -> (r: Self) {
        if type_num == 1 {
            Rtcm2MessageType::Type1
        } else if type_num == 2 {
            Rtcm2MessageType::Type2
        } else if type_num == 3 {
            Rtcm2MessageType::Type3
        } else if type_num == 9 {
            Rtcm2MessageType::Type9
        } else if type_num == 18 {
            Rtcm2MessageType::Type18
        } else if type_num == 19 {
            Rtcm2MessageType::Type19
        } else {
            Rtcm2MessageType::Other(type_num)
        }
    }
}

impl vstd::std_specs::convert::FromSpecImpl<u16> for Rtcm2MessageType {
    open spec fn obeys_from_spec() -> bool {
        true
    }

    open spec fn from_spec(type_num: u16) -> Self {
        rtcm2_type_of(type_num)
    }
}

/// RTCM 2 message header.
#[derive(Debug, Clone, Copy, PartialEq, Eq, Structural)]
pub struct Rtcm2Header {
    /// Message type.
    pub message_type: Rtcm2MessageType,
    /// Reference station number.
    pub station_id: u16,
    /// Modified Z-count.
    pub z_count: u16,
    /// Sequence number.
    pub sequence_number: u8,
    /// Length field.
    pub length: u16,
    /// Station health.
    pub station_health: u8,
}

/// Type 1 message: differential GPS corrections. `prc` holds pseudorange
/// corrections in units of 0.02 m (scale factor 0) or 0.32 m (scale factor
/// 1); `rrc` range-rate corrections in units of 0.002 m/s or 0.032 m/s.
#[derive(Debug, Clone)]
pub struct Rtcm2Type1 {
    /// Scale factor (0 or 1).
    pub scale_factor: u8,
    /// User differential range error indicators.
    pub udre: Vec<u8>,
    /// Satellite numbers.
    pub satellite_id: Vec<u8>,
    /// Pseudorange corrections.
    pub prc: Vec<i32>,
    /// Range-rate corrections.
    pub rrc: Vec<i32>,
}

/// Type 2 message: delta differential GPS corrections, in the units of
/// type 1.
#[derive(Debug, Clone)]
pub struct Rtcm2Type2 {
    /// Scale factor (0 or 1).
    pub scale_factor: u8,
    /// User differential range error indicators.
    pub udre: Vec<u8>,
    /// Satellite numbers.
    pub satellite_id: Vec<u8>,
    /// Delta pseudorange corrections.
    pub delta_prc: Vec<i32>,
    /// Delta range-rate corrections.
    pub delta_rrc: Vec<i32>,
}

/// Type 3 message: reference station ECEF coordinates in units of 0.01 m.
#[derive(Debug, Clone, Copy, PartialEq, Eq, Structural)]
pub struct Rtcm2Type3 {
    /// X coordinate.
    pub x: i32,
    /// Y coordinate.
    pub y: i32,
    /// Z coordinate.
    pub z: i32,
}

/// An RTCM 2 message body.
#[derive(Debug, Clone)]
pub enum Rtcm2MessageBody {
    /// Type 1 corrections.
    Type1(Rtcm2Type1),
    /// Type 2 corrections.
    Type2(Rtcm2Type2),
    /// Type 3 station parameters.
    Type3(Rtcm2Type3),
    /// A type whose body is not decoded.
    Unknown(Rtcm2MessageType),
}

/// An RTCM 2 message.
#[derive(Debug, Clone)]
pub struct Rtcm2Message {
    /// Header.
    pub header: Rtcm2Header,
    /// Body.
    pub body: Rtcm2MessageBody,
}

/// Where the RTCM 2 frame synchroniser stands.
#[derive(Debug, Clone, Copy, PartialEq, Eq, Structural)]
pub enum SyncState {
    /// Looking for the 0x66 preamble.
    FindPreamble,
    /// Reading a frame.
    ReadingMessage,
}

/// Synchronises on RTCM 2 frames a byte at a time and decodes each complete,
/// checksummed frame.
#[derive(Debug)]
pub struct Rtcm2Parser {
    /// Where the synchroniser stands.
    pub sync_state: SyncState,
    /// The bytes of the frame read so far, from the preamble on.
    pub buffer: Vec<u8>,
    /// Length of the frame body in three-byte words.
    pub message_length: usize,
}

/// One decoded correction entry: UDRE, satellite number, correction and
/// correction rate.
pub type Rtcm2Correction = (u8, u8, i32, i32);

/// The correction entries that a type 1 or type 2 body yields from bit `pos`
/// of `p`, reading at most `k` entries: each entry is a 2-bit UDRE, a 5-bit
/// satellite number, a 16-bit and an 8-bit signed correction; reading stops
/// at the end of the data, at a short entry, or at satellite number 0.
pub open spec fn corrections_from(p: Seq<u8>, pos: int, k: nat) -> Seq<Rtcm2Correction>
    decreases k,
{
    let t = p.len() * 8;
    if k == 0 || pos >= t || pos + 7 > t || bits_value(p, pos + 2, 5) == 0 || pos + 31 > t {
        Seq::empty()
    } else {
        seq![(
            bits_value(p, pos, 2) as u8,
            bits_value(p, pos + 2, 5) as u8,
            bits_signed(p, pos + 7, 16) as i32,
            bits_signed(p, pos + 23, 8) as i32,
        )] + corrections_from(p, pos + 31, (k - 1) as nat)
    }
}

/// How many correction entries a frame of `len` bytes may hold: the body
/// bits after the scale factor, less 24, over 31, where the subtraction
/// wraps around the word size for frames too short to hold any.
pub open spec fn max_corrections(len: usize) -> nat {
    ((((len - 6) * 8) as usize).wrapping_sub(25usize) / 31) as nat
}

/// `CRC-24Q` register after `j` bit-serial steps from `c`.
pub open spec fn crc24q_shifts(c: u32, j: nat) -> u32
    decreases j,
{
    if j == 0 {
        c
    } else {
        crc24q_shift(crc24q_shifts(c, (j - 1) as nat))
    }
}

/// The header that frame `f` carries.
pub open spec fn rtcm2_header_of(f: Seq<u8>) -> Rtcm2Header {
    Rtcm2Header {
        message_type: rtcm2_type_of(bits_value(f.subrange(1, 3), 0, 6) as u16),
        station_id: bits_value(f.subrange(1, 3), 6, 10) as u16,
        z_count: bits_value(f.subrange(3, f.len() as int), 0, 13) as u16,
        sequence_number: bits_value(f.subrange(4, f.len() as int), 3, 3) as u8,
        length: bits_value(f.subrange(5, f.len() as int), 0, 5) as u16,
        station_health: bits_value(f.subrange(5, f.len() as int), 5, 3) as u8,
    }
}

/// The correction entries of the type 1 or type 2 body of frame `f`.
pub open spec fn rtcm2_entries(f: Seq<u8>) -> Seq<Rtcm2Correction> {
    corrections_from(f.subrange(6, f.len() as int), 1, max_corrections(f.len() as usize))
}

/// Whether the four lists hold the UDREs, satellite numbers, corrections and
/// correction rates of `entries`, in order.
pub open spec fn corrections_listed(
    entries: Seq<Rtcm2Correction>,
    udre: Seq<u8>,
    sats: Seq<u8>,
    prc: Seq<i32>,
    rrc: Seq<i32>,
) -> bool {
    &&& udre.len() == entries.len()
    &&& sats.len() == entries.len()
    &&& prc.len() == entries.len()
    &&& rrc.len() == entries.len()
    &&& forall|i: int| 0 <= i < entries.len() ==> {
        &&& #[trigger] udre[i] == entries[i].0
        &&& sats[i] == entries[i].1
        &&& prc[i] == entries[i].2
        &&& rrc[i] == entries[i].3
    }
}

/// What decoding the complete frame `f` gives.
pub open spec fn rtcm2_decoded(f: Seq<u8>, r: Result<Rtcm2Message, Rtcm2Error>) -> bool {
    let h = rtcm2_header_of(f);
    let body = f.subrange(6, f.len() as int);
    match h.message_type {
        Rtcm2MessageType::Type1 => if f.len() <= 6 {
            r matches Err(Rtcm2Error::ParseError(s)) && s@ == "Message too short for Type 1"@
        } else {
            &&& r matches Ok(m)
            &&& m.header == h
            &&& m.body matches Rtcm2MessageBody::Type1(b)
            &&& b.scale_factor == bits_value(body, 0, 1)
            &&& corrections_listed(rtcm2_entries(f), b.udre@, b.satellite_id@, b.prc@, b.rrc@)
        },
        Rtcm2MessageType::Type2 => if f.len() <= 6 {
            r matches Err(Rtcm2Error::ParseError(s)) && s@ == "Message too short for Type 2"@
        } else {
            &&& r matches Ok(m)
            &&& m.header == h
            &&& m.body matches Rtcm2MessageBody::Type2(b)
            &&& b.scale_factor == bits_value(body, 0, 1)
            &&& corrections_listed(rtcm2_entries(f), b.udre@, b.satellite_id@, b.delta_prc@, b.delta_rrc@)
        },
        Rtcm2MessageType::Type3 => if f.len() <= 18 {
            r matches Err(Rtcm2Error::ParseError(s)) && s@ == "Message too short for Type 3"@
        } else {
            &&& r matches Ok(m)
            &&& m.header == h
            &&& m.body == Rtcm2MessageBody::Type3(Rtcm2Type3 {
                x: bits_signed(body, 0, 24) as i32,
                y: bits_signed(body, 24, 24) as i32,
                z: bits_signed(body, 48, 24) as i32,
            })
        },
        _ => {
            &&& r matches Ok(m)
            &&& m.header == h
            &&& m.body == Rtcm2MessageBody::Unknown(h.message_type)
        },
    }
}

/// Whether frame `f` ends in the bit-serial CRC-24Q of the bytes before its
/// last three.
pub open spec fn rtcm2_crc_ok(f: Seq<u8>) -> bool {
    f.len() >= 6 && crc24q(f.take(f.len() - 3)) as int == be24(f, f.len() - 3)
}

/// The body length (in three-byte words) held in bytes 1 and 2 of frame `f`.
pub open spec fn rtcm2_length_field(f: Seq<u8>) -> nat {
    bits_value(f.subrange(1, 3), 6, 10)
}

/// Appends the entries of a type 1 or type 2 body to the four lists.
fn read_corrections(
    reader: &mut BitReader,
    max_satellites: usize,
    udre: &mut Vec<u8>,
    satellite_id: &mut Vec<u8>,
    prc: &mut Vec<i32>,
    rrc: &mut Vec<i32>,
)
    requires
        old(reader).wf(),
        old(udre)@.len() == 0,
        old(satellite_id)@.len() == 0,
        old(prc)@.len() == 0,
        old(rrc)@.len() == 0,
    ensures
        corrections_listed(
            corrections_from(old(reader).data(), old(reader).pos() as int, max_satellites as nat),
            final(udre)@,
            final(satellite_id)@,
            final(prc)@,
            final(rrc)@,
        ),
{
    let ghost p = reader.data();
    let ghost start = reader.pos() as int;
    let ghost all = corrections_from(p, start, max_satellites as nat);
    let ghost mut entry_pos: int = start;
    let mut n: usize = 0;
    proof {
        lemma2_to64();
        reader.lemma_pos_in_data();
    }
    while n < max_satellites
        invariant_except_break
            reader.wf(),
            reader.data() == p,
            reader.pos() == entry_pos,
            n <= max_satellites,
            n <= all.len(),
            all == corrections_from(p, start, max_satellites as nat),
            all.subrange(0, n as int) + corrections_from(p, entry_pos, (max_satellites - n) as nat) == all,
            corrections_listed(all.subrange(0, n as int), udre@, satellite_id@, prc@, rrc@),
        ensures
            corrections_listed(all, udre@, satellite_id@, prc@, rrc@),
        decreases max_satellites - n,
    {
        proof {
            reader.lemma_pos_in_data();
            lemma2_to64();
        }
        if !reader.has_more() {
            proof {
                assert(all.subrange(0, n as int) =~= all);
            }
            break;
        }
        let udre_val = match reader.read_bits_u32(2) {
            Ok(val) => val,
            Err(_) => {
                proof {
                    assert(all.subrange(0, n as int) =~= all);
                }
                break;
            },
        };
        let sat_id = match reader.read_bits_u32(5) {
            Ok(val) => val,
            Err(_) => {
                proof {
                    assert(all.subrange(0, n as int) =~= all);
                }
                break;
            },
        };
        if sat_id == 0 {
            proof {
                assert(all.subrange(0, n as int) =~= all);
            }
            break;
        }
        let prc_val = match reader.read_bits_i32(16) {
            Ok(val) => val,
            Err(_) => {
                proof {
                    assert(all.subrange(0, n as int) =~= all);
                }
                break;
            },
        };
        let rrc_val = match reader.read_bits_i32(8) {
            Ok(val) => val,
            Err(_) => {
                proof {
                    assert(all.subrange(0, n as int) =~= all);
                }
                break;
            },
        };
        proof {
            lemma_bits_value_bound(p, entry_pos, 2);
            lemma_bits_value_bound(p, entry_pos + 2, 5);
        }
        let ghost e = (udre_val as u8, sat_id as u8, prc_val, rrc_val);
        udre.push(udre_val as u8);
        satellite_id.push(sat_id as u8);
        prc.push(prc_val);
        rrc.push(rrc_val);
        proof {
            let rest = corrections_from(p, entry_pos + 31, (max_satellites - n - 1) as nat);
            assert(corrections_from(p, entry_pos, (max_satellites - n) as nat) == seq![e] + rest);
            assert(all.len() == n + 1 + rest.len()) by {
                assert((all.subrange(0, n as int) + (seq![e] + rest)).len() == n + 1 + rest.len());
            }
            assert(all[n as int] == e) by {
                assert((all.subrange(0, n as int) + (seq![e] + rest))[n as int] == e);
            }
            assert(all.subrange(0, n + 1) =~= all.subrange(0, n as int).push(e));
            assert(all.subrange(0, n + 1) + rest =~= all) by {
                assert(all.subrange(0, n as int) + (seq![e] + rest) =~= all.subrange(0, n as int).push(e) + rest);
            }
            entry_pos = entry_pos + 31;
        }
        n = n + 1;
    }
}

impl Rtcm2Parser {
    /// The parser's invariant: the body length fits in the 10-bit field.
    pub open spec fn wf(&self) -> bool {
        self.message_length < 1024
    }

    /// What one call of [`Rtcm2Parser::process_byte`] does.
    pub open spec fn process_byte_post(
        old: Rtcm2Parser,
        new: Rtcm2Parser,
        byte: u8,
        r: Result<Option<Rtcm2Message>, Rtcm2Error>,
    ) -> bool {
        &&& new.wf()
        &&& match old.sync_state {
            SyncState::FindPreamble => {
                &&& r == Ok::<Option<Rtcm2Message>, Rtcm2Error>(None)
                &&& new.message_length == old.message_length
                &&& byte == 0x66 ==> new.buffer@ == seq![0x66u8] && new.sync_state == SyncState::ReadingMessage
                &&& byte != 0x66 ==> new.buffer@ == old.buffer@ && new.sync_state == old.sync_state
            },
            SyncState::ReadingMessage => {
                let f = old.buffer@.push(byte);
                let ml = if f.len() == 3 { rtcm2_length_field(f) } else { old.message_length as nat };
                &&& new.buffer@ == f
                &&& new.message_length == ml
                &&& f.len() != 6 + ml * 3 + 3 ==> {
                    &&& r == Ok::<Option<Rtcm2Message>, Rtcm2Error>(None)
                    &&& new.sync_state == old.sync_state
                }
                &&& f.len() == 6 + ml * 3 + 3 && !rtcm2_crc_ok(f) ==> {
                    &&& r == Err::<Option<Rtcm2Message>, Rtcm2Error>(Rtcm2Error::CrcError)
                    &&& new.sync_state == SyncState::FindPreamble
                }
                &&& f.len() == 6 + ml * 3 + 3 && rtcm2_crc_ok(f) ==> {
                    &&& r is Ok ==> {
                        &&& r->Ok_0 is Some
                        &&& rtcm2_decoded(f, Ok(r->Ok_0->Some_0))
                        &&& new.sync_state == SyncState::FindPreamble
                    }
                    &&& r is Err ==> {
                        &&& rtcm2_decoded(f, Err(r->Err_0))
                        &&& new.sync_state == SyncState::ReadingMessage
                    }
                }
            },
        }
    }

    /// A parser looking for a preamble, with an empty buffer.
    pub fn new() -> (r: Self)
        ensures
            r.wf(),
            r.sync_state == SyncState::FindPreamble,
            r.buffer@ == Seq::<u8>::empty(),
            r.message_length == 0,
    {
        Self { sync_state: SyncState::FindPreamble, buffer: Vec::with_capacity(1024), message_length: 0 }
    }

    /// Feeds one byte to the synchroniser; a complete frame whose checksum
    /// matches is decoded and returned. A frame whose checksum fails is
    /// reported and dropped; a frame that fails to decode is reported, and
    /// the parser then stays in the frame-reading state.
    pub fn process_byte(&mut self, byte: u8) -> (r: Result<Option<Rtcm2Message>, Rtcm2Error>)
        requires
            old(self).wf(),
        ensures
            Self::process_byte_post(*old(self), *final(self), byte, r),
    {
        match self.sync_state {
            SyncState::FindPreamble => {
                if byte == 0x66 {
                    self.buffer.clear();
                    self.buffer.push(byte);
                    self.sync_state = SyncState::ReadingMessage;
                    proof {
                        assert(self.buffer@ =~= seq![0x66u8]);
                    }
                }
                Ok(None)
            },
            SyncState::ReadingMessage => {
                self.buffer.push(byte);
                if self.buffer.len() == 3 {
                    let header_bytes = slice_subrange(self.buffer.as_slice(), 1, 3);
                    let mut bit_reader = BitReader::new(header_bytes);
                    match bit_reader.skip_bits(6) {
                        Ok(()) => {},
                        Err(e) => {
                            return Err(Rtcm2Error::IoError(e));
                        },
                    }
                    let length_bits = match bit_reader.read_bits_u32(10) {
                        Ok(v) => v,
                        Err(e) => {
                            return Err(Rtcm2Error::IoError(e));
                        },
                    };
                    proof {
                        lemma2_to64();
                        lemma_bits_value_bound(header_bytes@, 6, 10);
                    }
                    self.message_length = length_bits as usize;
                }
                let total_bytes = 6 + self.message_length * 3 + 3;
                if self.buffer.len() == total_bytes {
                    if !self.verify_crc() {
                        self.sync_state = SyncState::FindPreamble;
                        return Err(Rtcm2Error::CrcError);
                    }
                    let message = self.parse_message()?;
                    self.sync_state = SyncState::FindPreamble;
                    Ok(Some(message))
                } else {
                    Ok(None)
                }
            },
        }
    }

    /// Checks the frame in the buffer against its trailing checksum.
    fn verify_crc(&self) -> (r: bool)
        ensures
            r == rtcm2_crc_ok(self.buffer@),
    {
        if self.buffer.len() < 6 {
            return false;
        }
        let data_len = self.buffer.len() - 3;
        let a = self.buffer[data_len] as u32;
        let b = self.buffer[data_len + 1] as u32;
        let c = self.buffer[data_len + 2] as u32;
        proof {
            assert((a << 16u32) | (b << 8u32) | c == a * 65536 + b * 256 + c) by (bit_vector)
                requires a < 256, b < 256, c < 256;
        }
        let received_crc = (a << 16) | (b << 8) | c;
        let data = slice_subrange(self.buffer.as_slice(), 0, data_len);
        proof {
            assert(data@ =~= self.buffer@.take(data_len as int));
        }
        let calculated_crc = self.calculate_crc24q(data);
        received_crc == calculated_crc
    }

    /// CRC-24Q (generator 0x1864CFB) of `data`, bit by bit.
    pub fn calculate_crc24q(&self, data: &[u8]) -> (r: u32)
        ensures
            r == crc24q(data@),
    {
        let mut crc: u32 = 0;
        let mut i: usize = 0;
        proof {
            assert(data@.take(0) =~= Seq::<u8>::empty());
        }
        while i < data.len()
            invariant
                i <= data@.len(),
                crc == crc24q(data@.take(i as int)),
                crc < 0x1000000u32,
            decreases data@.len() - i,
        {
            let byte = data[i];
            let c0 = crc ^ ((byte as u32) << 16u32);
            proof {
                assert(c0 < 0x1000000u32) by (bit_vector)
                    requires crc < 0x1000000u32, c0 == crc ^ ((byte as u32) << 16u32);
            }
            crc = c0;
            let mut j: u32 = 0;
            while j < 8
                invariant
                    j <= 8,
                    crc == crc24q_shifts(c0, j as nat),
                    crc < 0x1000000u32,
                decreases 8 - j,
            {
                proof {
                    lemma_crc24q_shift_bound(crc);
                }
                crc = crc << 1u32;
                if (crc & 0x1000000u32) != 0 {
                    crc = crc ^ 0x1864CFBu32;
                }
                j = j + 1;
            }
            proof {
                reveal_with_fuel(crc24q_shifts, 9);
                assert(data@.take(i + 1).drop_last() =~= data@.take(i as int));
            }
            i = i + 1;
        }
        proof {
            assert(data@.take(data@.len() as int) =~= data@);
            assert(crc & 0xFFFFFFu32 == crc) by (bit_vector)
                requires crc < 0x1000000u32;
        }
        crc & 0xFFFFFF
    }

    /// Decodes the complete frame in the buffer.
    fn parse_message(&self) -> (r: Result<Rtcm2Message, Rtcm2Error>)
        requires
            6 <= self.buffer@.len() <= 4096,
        ensures
            rtcm2_decoded(self.buffer@, r),
    {
        let header = self.parse_header()?;
        let body = match header.message_type {
            Rtcm2MessageType::Type1 => Rtcm2MessageBody::Type1(self.parse_type1()?),
            Rtcm2MessageType::Type2 => Rtcm2MessageBody::Type2(self.parse_type2()?),
            Rtcm2MessageType::Type3 => Rtcm2MessageBody::Type3(self.parse_type3()?),
            _ => Rtcm2MessageBody::Unknown(header.message_type),
        };
        Ok(Rtcm2Message { header, body })
    }

    /// Decodes the header fields of the frame in the buffer; a buffer that
    /// ends within the second header word gives a read failure.
    pub fn parse_header(&self) -> (r: Result<Rtcm2Header, Rtcm2Error>)
        requires
            3 <= self.buffer@.len(),
            self.buffer@.len() * 8 <= usize::MAX,
        ensures
            self.buffer@.len() >= 6 ==> r == Ok::<Rtcm2Header, Rtcm2Error>(rtcm2_header_of(self.buffer@)),
            self.buffer@.len() < 6 ==> r == Err::<Rtcm2Header, Rtcm2Error>(Rtcm2Error::IoError(BitError::UnexpectedEof)),
    {
        let ghost f = self.buffer@;
        proof {
            lemma2_to64();
            lemma_bits_value_bound(f.subrange(1, 3), 0, 6);
            lemma_bits_value_bound(f.subrange(1, 3), 6, 10);
            lemma_bits_value_bound(f.subrange(3, f.len() as int), 0, 13);
            lemma_bits_value_bound(f.subrange(4, f.len() as int), 3, 3);
            lemma_bits_value_bound(f.subrange(5, f.len() as int), 0, 5);
            lemma_bits_value_bound(f.subrange(5, f.len() as int), 5, 3);
        }
        let len = self.buffer.len();
        let buf = self.buffer.as_slice();
        let mut bit_reader = BitReader::new(slice_subrange(buf, 1, 3));
        let type_num = rtcm2_io(bit_reader.read_bits_u32(6))? as u16;
        let message_type = Rtcm2MessageType::from(type_num);
        let station_id = rtcm2_io(bit_reader.read_bits_u32(10))? as u16;
        let z_count = {
            let mut r = BitReader::new(slice_subrange(buf, 3, len));
            rtcm2_io(r.read_bits_u32(13))? as u16
        };
        let sequence_number = {
            let mut r = BitReader::new(slice_subrange(buf, 4, len));
            rtcm2_io(r.skip_bits(3))?;
            rtcm2_io(r.read_bits_u32(3))? as u8
        };
        let length = {
            let mut r = BitReader::new(slice_subrange(buf, 5, len));
            rtcm2_io(r.read_bits_u32(5))? as u16
        };
        let station_health = {
            let mut r = BitReader::new(slice_subrange(buf, 5, len));
            rtcm2_io(r.skip_bits(5))?;
            rtcm2_io(r.read_bits_u32(3))? as u8
        };
        Ok(Rtcm2Header { message_type, station_id, z_count, sequence_number, length, station_health })
    }

    /// Decodes a type 1 body.
    fn parse_type1(&self) -> (r: Result<Rtcm2Type1, Rtcm2Error>)
        requires
            6 <= self.buffer@.len() <= 4096,
        ensures
            self.buffer@.len() <= 6 ==> (r matches Err(Rtcm2Error::ParseError(s)) && s@ == "Message too short for Type 1"@),
            self.buffer@.len() > 6 ==> {
                &&& r matches Ok(b)
                &&& b.scale_factor == bits_value(self.buffer@.subrange(6, self.buffer@.len() as int), 0, 1)
                &&& corrections_listed(rtcm2_entries(self.buffer@), b.udre@, b.satellite_id@, b.prc@, b.rrc@)
            },
    {
        let data_start: usize = 6;
        if self.buffer.len() <= data_start {
            return Err(Rtcm2Error::ParseError(String::from_str("Message too short for Type 1")));
        }
        let body = slice_subrange(self.buffer.as_slice(), data_start, self.buffer.len());
        proof {
            lemma2_to64();
            lemma_bits_value_bound(body@, 0, 1);
        }
        let mut reader = BitReader::new(body);
        let scale_factor = match reader.read_bits_u32(1) {
            Ok(factor) => factor as u8,
            Err(_) => {
                return Err(Rtcm2Error::ParseError(String::from_str("Failed to read scale factor: Not enough data available")));
            },
        };
        let mut udre: Vec<u8> = Vec::new();
        let mut satellite_id: Vec<u8> = Vec::new();
        let mut prc: Vec<i32> = Vec::new();
        let mut rrc: Vec<i32> = Vec::new();
        let remaining_bits = ((self.buffer.len() - data_start) * 8).wrapping_sub(1 + 24);
        let max_satellites = remaining_bits / 31;
        proof {
            assert(max_satellites as nat == max_corrections(self.buffer@.len() as usize));
            assert(body@ == self.buffer@.subrange(6, self.buffer@.len() as int));
        }
        read_corrections(&mut reader, max_satellites, &mut udre, &mut satellite_id, &mut prc, &mut rrc);
        Ok(Rtcm2Type1 { scale_factor, udre, satellite_id, prc, rrc })
    }

    /// Decodes a type 2 body.
    fn parse_type2(&self) -> (r: Result<Rtcm2Type2, Rtcm2Error>)
        requires
            6 <= self.buffer@.len() <= 4096,
        ensures
            self.buffer@.len() <= 6 ==> (r matches Err(Rtcm2Error::ParseError(s)) && s@ == "Message too short for Type 2"@),
            self.buffer@.len() > 6 ==> {
                &&& r matches Ok(b)
                &&& b.scale_factor == bits_value(self.buffer@.subrange(6, self.buffer@.len() as int), 0, 1)
                &&& corrections_listed(rtcm2_entries(self.buffer@), b.udre@, b.satellite_id@, b.delta_prc@, b.delta_rrc@)
            },
    {
        let data_start: usize = 6;
        if self.buffer.len() <= data_start {
            return Err(Rtcm2Error::ParseError(String::from_str("Message too short for Type 2")));
        }
        let body = slice_subrange(self.buffer.as_slice(), data_start, self.buffer.len());
        proof {
            lemma2_to64();
            lemma_bits_value_bound(body@, 0, 1);
        }
        let mut reader = BitReader::new(body);
        let scale_factor = match reader.read_bits_u32(1) {
            Ok(factor) => factor as u8,
            Err(_) => {
                return Err(Rtcm2Error::ParseError(String::from_str("Failed to read scale factor: Not enough data available")));
            },
        };
        let mut udre: Vec<u8> = Vec::new();
        let mut satellite_id: Vec<u8> = Vec::new();
        let mut delta_prc: Vec<i32> = Vec::new();
        let mut delta_rrc: Vec<i32> = Vec::new();
        let remaining_bits = ((self.buffer.len() - data_start) * 8).wrapping_sub(1 + 24);
        let max_satellites = remaining_bits / 31;
        proof {
            assert(max_satellites as nat == max_corrections(self.buffer@.len() as usize));
            assert(body@ == self.buffer@.subrange(6, self.buffer@.len() as int));
        }
        read_corrections(&mut reader, max_satellites, &mut udre, &mut satellite_id, &mut delta_prc, &mut delta_rrc);
        Ok(Rtcm2Type2 { scale_factor, udre, satellite_id, delta_prc, delta_rrc })
    }

    /// Decodes a type 3 body.
    fn parse_type3(&self) -> (r: Result<Rtcm2Type3, Rtcm2Error>)
        requires
            6 <= self.buffer@.len() <= 4096,
        ensures
            self.buffer@.len() <= 18 ==> (r matches Err(Rtcm2Error::ParseError(s)) && s@ == "Message too short for Type 3"@),
            self.buffer@.len() > 18 ==> r == Ok::<Rtcm2Type3, Rtcm2Error>(Rtcm2Type3 {
                x: bits_signed(self.buffer@.subrange(6, self.buffer@.len() as int), 0, 24) as i32,
                y: bits_signed(self.buffer@.subrange(6, self.buffer@.len() as int), 24, 24) as i32,
                z: bits_signed(self.buffer@.subrange(6, self.buffer@.len() as int), 48, 24) as i32,
            }),
    {
        let data_start: usize = 6;
        if self.buffer.len() <= data_start + 12 {
            return Err(Rtcm2Error::ParseError(String::from_str("Message too short for Type 3")));
        }
        let body = slice_subrange(self.buffer.as_slice(), data_start, self.buffer.len());
        let mut reader = BitReader::new(body);
        let x = match reader.read_bits_i32(24) {
            Ok(val) => val,
            Err(_) => {
                return Err(Rtcm2Error::ParseError(String::from_str("Failed to read X coordinate: Not enough data available")));
            },
        };
        let y = match reader.read_bits_i32(24) {
            Ok(val) => val,
            Err(_) => {
                return Err(Rtcm2Error::ParseError(String::from_str("Failed to read Y coordinate: Not enough data available")));
            },
        };
        let z = match reader.read_bits_i32(24) {
            Ok(val) => val,
            Err(_) => {
                return Err(Rtcm2Error::ParseError(String::from_str("Failed to read Z coordinate: Not enough data available")));
            },
        };
        Ok(Rtcm2Type3 { x, y, z })
    }
}

/// A bit-reader failure, as an RTCM 2 error.
fn rtcm2_io<T>(r: Result<T, BitError>) -> (out: Result<T, Rtcm2Error>)
    ensures
        r is Ok ==> out == Ok::<T, Rtcm2Error>(r->Ok_0),
        r is Err ==> out == Err::<T, Rtcm2Error>(Rtcm2Error::IoError(r->Err_0)),
{
    match r {
        Ok(v) => Ok(v),
        Err(e) => Err(Rtcm2Error::IoError(e)),
    }
}

/// Whether `f` is one whole RTCM 2 frame: the preamble, a length field that
/// covers the rest, and a matching checksum.
pub open spec fn is_rtcm2_frame(f: Seq<u8>) -> bool {
    &&& f.len() >= 6
    &&& f[0] == 0x66
    &&& f.len() == rtcm2_length_field(f) * 3 + 9
    &&& rtcm2_crc_ok(f)
}

/// Where a parser stands after the first `i` bytes of frame `f`, fed from the
/// preamble search.
pub open spec fn reading_rtcm2_frame(p: Rtcm2Parser, f: Seq<u8>, i: int) -> bool {
    &&& p.buffer@ == f.take(i)
    &&& p.sync_state == SyncState::ReadingMessage
    &&& i >= 3 ==> p.message_length == rtcm2_length_field(f)
}

/// Feeding the first `i` bytes of a frame gives nothing, and leaves the
/// parser reading the frame.
proof fn lemma_rtcm2_frame_prefix(
    states: Seq<Rtcm2Parser>,
    results: Seq<Result<Option<Rtcm2Message>, Rtcm2Error>>,
    f: Seq<u8>,
    i: int,
)
    requires
        is_rtcm2_frame(f),
        states.len() == f.len() + 1,
        results.len() == f.len(),
        states[0].sync_state == SyncState::FindPreamble,
        forall|j: int| 0 <= j < f.len() ==> #[trigger] Rtcm2Parser::process_byte_post(states[j], states[j + 1], f[j], results[j]),
        1 <= i < f.len(),
    ensures
        reading_rtcm2_frame(states[i], f, i),
        forall|j: int| 0 <= j < i ==> results[j] == Ok::<Option<Rtcm2Message>, Rtcm2Error>(None),
    decreases i,
{
    let k = i - 1;
    assert(Rtcm2Parser::process_byte_post(states[k], states[k + 1], f[k], results[k]));
    if i == 1 {
        assert(f.take(1) =~= seq![0x66u8]);
    } else {
        lemma_rtcm2_frame_prefix(states, results, f, k);
        assert(f.take(k).push(f[k]) =~= f.take(i));
        assert(f.take(i).len() == i);
        if i == 3 {
            assert(f.take(3).subrange(1, 3) =~= f.subrange(1, 3));
        }
    }
}

/// Fed byte by byte to a parser that is looking for a preamble, one whole
/// RTCM 2 frame gives nothing until its last byte; its last byte gives the
/// frame's decoding, a message or the error that decoding it reports.
pub proof fn lemma_rtcm2_frame_delivered(
    states: Seq<Rtcm2Parser>,
    results: Seq<Result<Option<Rtcm2Message>, Rtcm2Error>>,
    f: Seq<u8>,
)
    requires
        is_rtcm2_frame(f),
        states.len() == f.len() + 1,
        results.len() == f.len(),
        states[0].sync_state == SyncState::FindPreamble,
        forall|j: int| 0 <= j < f.len() ==> #[trigger] Rtcm2Parser::process_byte_post(states[j], states[j + 1], f[j], results[j]),
    ensures
        forall|j: int| 0 <= j < f.len() - 1 ==> results[j] == Ok::<Option<Rtcm2Message>, Rtcm2Error>(None),
        results.last() != Ok::<Option<Rtcm2Message>, Rtcm2Error>(None),
        results.last() matches Ok(Some(m)) ==> rtcm2_decoded(f, Ok(m)),
        results.last() matches Err(e) ==> rtcm2_decoded(f, Err(e)),
{
    let n = f.len() as int;
    lemma_rtcm2_frame_prefix(states, results, f, n - 1);
    let k = n - 1;
    assert(Rtcm2Parser::process_byte_post(states[k], states[k + 1], f[k], results[k]));
    assert(f.take(k).push(f[k]) =~= f);
}

} // verus!
