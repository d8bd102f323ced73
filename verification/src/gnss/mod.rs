//! Satellite systems, satellite identifiers and the signals each system
//! offers.

pub mod satsys;
pub mod orbit;

use vstd::prelude::*;
use vstd::slice::slice_subrange;
use vstd::string::*;
use vstd::utf8::{encode_utf8, is_ascii_chars, is_ascii_chars_encode_utf8};
use crate::util::text::{decimal_text, push_char};

verus! {

/// A GNSS constellation.
#[derive(Debug, Clone, Copy, PartialEq, Eq, Hash, Structural)]
pub enum GnssSystem {
    /// GPS
    Gps,
    /// GLONASS
    Glonass,
    /// Galileo
    Galileo,
    /// QZSS
    Qzss,
    /// BeiDou
    BeiDou,
    /// SBAS
    Sbas,
    /// NavIC/IRNSS
    NavIc,
}

/// The RINEX letter of a system.
pub open spec fn system_char(s: GnssSystem) -> char {
    match s {
        GnssSystem::Gps => 'G',
        GnssSystem::Glonass => 'R',
        GnssSystem::Galileo => 'E',
        GnssSystem::Qzss => 'J',
        GnssSystem::BeiDou => 'C',
        GnssSystem::Sbas => 'S',
        GnssSystem::NavIc => 'I',
    }
}

/// The system that a RINEX letter names, if any.
pub open spec fn system_of_char(c: char) -> Option<GnssSystem> {
    if c == 'G' {
        Some(GnssSystem::Gps)
    } else if c == 'R' {
        Some(GnssSystem::Glonass)
    } else if c == 'E' {
        Some(GnssSystem::Galileo)
    } else if c == 'J' {
        Some(GnssSystem::Qzss)
    } else if c == 'C' {
        Some(GnssSystem::BeiDou)
    } else if c == 'S' {
        Some(GnssSystem::Sbas)
    } else if c == 'I' {
        Some(GnssSystem::NavIc)
    } else {
        None
    }
}

/// The display name of a system.
pub open spec fn system_name(s: GnssSystem) -> Seq<char> {
    match s {
        GnssSystem::Gps => "GPS"@,
        GnssSystem::Glonass => "GLONASS"@,
        GnssSystem::Galileo => "Galileo"@,
        GnssSystem::Qzss => "QZSS"@,
        GnssSystem::BeiDou => "BeiDou"@,
        GnssSystem::Sbas => "SBAS"@,
        GnssSystem::NavIc => "NavIC/IRNSS"@,
    }
}

impl GnssSystem {
    /// The system that RINEX letter `c` names (G, R, E, J, C, S, I).
    pub fn from_char(c: char) -> (r: Option<Self>)
        ensures
            r == system_of_char(c),
    {
        match c {
            'G' => Some(Self::Gps),
            'R' => Some(Self::Glonass),
            'E' => Some(Self::Galileo),
            'J' => Some(Self::Qzss),
            'C' => Some(Self::BeiDou),
            'S' => Some(Self::Sbas),
            'I' => Some(Self::NavIc),
            _ => None,
        }
    }

    /// The RINEX letter of the system.
    pub fn to_char(&self) -> (r: char)
        ensures
            r == system_char(*self),
    {
        match self {
            Self::Gps => 'G',
            Self::Glonass => 'R',
            Self::Galileo => 'E',
            Self::Qzss => 'J',
            Self::BeiDou => 'C',
            Self::Sbas => 'S',
            Self::NavIc => 'I',
        }
    }

    /// The display name of the system.
    pub fn name(&self) -> (r: &'static str)
        ensures
            r@ == system_name(*self),
    {
        match self {
            Self::Gps => "GPS",
            Self::Glonass => "GLONASS",
            Self::Galileo => "Galileo",
            Self::Qzss => "QZSS",
            Self::BeiDou => "BeiDou",
            Self::Sbas => "SBAS",
            Self::NavIc => "NavIC/IRNSS",
        }
    }
}

/// Every system's letter names it again, and every letter that names a
/// system is that system's letter.
pub proof fn lemma_system_char_roundtrip(s: GnssSystem, c: char)
    ensures
        system_of_char(system_char(s)) == Some(s),
        system_of_char(c) matches Some(t) ==> system_char(t) == c,
{
}

/// A satellite: its system and its number within the system.
#[derive(Debug, Clone, Copy, PartialEq, Eq, Hash, Structural)]
pub struct SatelliteId {
    /// GNSS system.
    pub system: GnssSystem,
    /// Satellite number.
    pub prn: u8,
}

/// Whether byte `b` is an ASCII decimal digit.
pub open spec fn is_digit(b: u8) -> bool {
    48 <= b <= 57
}

/// The number that the decimal digits `d` spell.
pub open spec fn decimal_value(d: Seq<u8>) -> nat
    decreases d.len(),
{
    if d.len() == 0 {
        0
    } else {
        decimal_value(d.drop_last()) * 10 + (d.last() - 48) as nat
    }
}

/// What parsing `b` as an unsigned 8-bit decimal gives: an optional `+`,
/// then one or more digits whose value is at most 255.
pub open spec fn parse_u8_text(b: Seq<u8>) -> Option<u8> {
    parse_u8_digits(if b.len() > 0 && b[0] == 43 { b.drop_first() } else { b })
}

/// The value of the digit string `d` if it is one and at most 255.
pub open spec fn parse_u8_digits(d: Seq<u8>) -> Option<u8> {
    if d.len() > 0 && (forall|i: int| 0 <= i < d.len() ==> is_digit(#[trigger] d[i])) && decimal_value(d) <= 255 {
        Some(decimal_value(d) as u8)
    } else {
        None
    }
}

/// The satellite that the text with UTF-8 bytes `b` names: a system letter
/// followed by a satellite number.
pub open spec fn satellite_of_text(b: Seq<u8>) -> Option<SatelliteId> {
    if b.len() < 2 {
        None
    } else {
        match system_of_char(b[0] as char) {
            Some(system) => match parse_u8_text(b.drop_first()) {
                Some(prn) => Some(SatelliteId { system, prn }),
                None => None,
            },
            None => None,
        }
    }
}

/// The text of a satellite: its system letter and its number, padded with a
/// zero to two digits.
pub open spec fn satellite_text(id: SatelliteId) -> Seq<char> {
    seq![system_char(id.system)] + if id.prn < 10 {
        seq!['0'] + decimal_text(id.prn as nat)
    } else {
        decimal_text(id.prn as nat)
    }
}

/// Parses a decimal `u8` from `b`, as `str::parse::<u8>` does.
fn parse_u8(b: &[u8]) -> (r: Option<u8>)
    ensures
        r == parse_u8_text(b@),
{
    let mut start: usize = 0;
    if b.len() > 0 && b[0] == 43u8 {
        start = 1;
    }
    let ghost d = if b@.len() > 0 && b@[0] == 43 { b@.drop_first() } else { b@ };
    proof {
        assert(d =~= b@.subrange(start as int, b@.len() as int));
    }
    if start >= b.len() {
        return None;
    }
    let mut value: u32 = 0;
    let mut i: usize = start;
    while i < b.len()
        invariant
            start <= i <= b@.len(),
            start < b@.len(),
            d =~= b@.subrange(start as int, b@.len() as int),
            d == (if b@.len() > 0 && b@[0] == 43 { b@.drop_first() } else { b@ }),
            forall|k: int| start <= k < i ==> is_digit(#[trigger] b@[k]),
            value as nat == decimal_value(b@.subrange(start as int, i as int)),
            value <= 255,
        decreases b@.len() - i,
    {
        let c = b[i];
        if c < 48u8 || c > 57u8 {
            proof {
                assert(d[i - start] == c);
                assert(!is_digit(d[i - start]));
                assert(!(forall|k: int| 0 <= k < d.len() ==> is_digit(#[trigger] d[k])));
                assert(parse_u8_digits(d) is None);
            }
            return None;
        }
        let next = value * 10 + (c - 48u8) as u32;
        proof {
            assert(b@.subrange(start as int, i + 1).drop_last() =~= b@.subrange(start as int, i as int));
        }
        if next > 255 {
            proof {
                assert(d.subrange(0, (i + 1 - start) as int) =~= b@.subrange(start as int, i + 1));
                if forall|k: int| 0 <= k < d.len() ==> is_digit(#[trigger] d[k]) {
                    lemma_decimal_value_grows(d, (i + 1 - start) as nat);
                }
            }
            return None;
        }
        value = next;
        i = i + 1;
    }
    proof {
        assert(b@.subrange(start as int, b@.len() as int) =~= d);
        assert forall|k: int| 0 <= k < d.len() implies is_digit(#[trigger] d[k]) by {
            assert(d[k] == b@[k + start]);
        }
    }
    Some(value as u8)
}

/// A digit string's value is at least the value of any of its prefixes.
proof fn lemma_decimal_value_grows(d: Seq<u8>, n: nat)
    requires
        n <= d.len(),
        forall|i: int| 0 <= i < d.len() ==> is_digit(#[trigger] d[i]),
    ensures
        decimal_value(d.subrange(0, n as int)) <= decimal_value(d),
    decreases d.len() - n,
{
    if n < d.len() {
        lemma_decimal_value_grows(d, n + 1);
        assert(d.subrange(0, (n + 1) as int).drop_last() =~= d.subrange(0, n as int));
    } else {
        assert(d.subrange(0, n as int) =~= d);
    }
}

impl SatelliteId {
    /// The satellite `prn` of `system`.
    pub fn new(system: GnssSystem, prn: u8) -> (r: Self)
        ensures
            r == (SatelliteId { system, prn }),
    {
        Self { system, prn }
    }

    /// Parses a satellite from a system letter followed by its number, as in
    /// "G05" or "R12".
    pub fn from_str(s: &str) -> (r: Option<Self>)
        ensures
            r == satellite_of_text(s.spec_bytes()),
    {
        let b = s.as_bytes();
        if b.len() < 2 {
            return None;
        }
        let system = GnssSystem::from_char(b[0] as char)?;
        let rest = slice_subrange(b, 1, b.len());
        proof {
            assert(rest@ =~= b@.drop_first());
        }
        let prn = parse_u8(rest)?;
        Some(Self { system, prn })
    }

    /// The satellite's text: system letter and number, zero-padded to two digits.
    pub fn to_string(&self) -> (r: String)
        ensures
            r@ == satellite_text(*self),
    {
        let mut s = String::new();
        push_char(&mut s, self.system.to_char());
        let prn = self.prn;
        proof {
            reveal_with_fuel(decimal_text, 3);
        }
        if prn < 10 {
            push_char(&mut s, '0');
            push_char(&mut s, (48 + prn) as char);
        } else if prn < 100 {
            push_char(&mut s, (48 + prn / 10) as char);
            push_char(&mut s, (48 + prn % 10) as char);
        } else {
            push_char(&mut s, (48 + prn / 100) as char);
            push_char(&mut s, (48 + (prn / 10) % 10) as char);
            push_char(&mut s, (48 + prn % 10) as char);
        }
        proof {
            assert(s@ =~= satellite_text(*self));
        }
        s
    }
}

/// A satellite's text names the same satellite again: parsing what
/// [`SatelliteId::to_string`] writes gives back the satellite.
pub proof fn lemma_satellite_text_roundtrip(id: SatelliteId)
    ensures
        satellite_of_text(encode_utf8(satellite_text(id))) == Some(id),
{
    reveal_with_fuel(decimal_text, 3);
    let t = satellite_text(id);
    let p = id.prn;
    assert(is_ascii_chars(t));
    is_ascii_chars_encode_utf8(t);
    let b = encode_utf8(t);
    assert(b[0] as char == system_char(id.system));
    let d = b.drop_first();
    assert(d.len() > 0 && d[0] != 43);
    if p < 10 {
        assert(d.len() == 2 && d[0] == 48 && d[1] == 48 + p);
        assert(d.drop_last().drop_last() =~= Seq::<u8>::empty());
        assert(decimal_value(d.drop_last().drop_last()) == 0);
        assert(decimal_value(d.drop_last()) == 0);
        assert(decimal_value(d) == p);
    } else if p < 100 {
        assert(d.len() == 2 && d[0] == 48 + p / 10 && d[1] == 48 + p % 10);
        assert(d.drop_last().drop_last() =~= Seq::<u8>::empty());
        assert(decimal_value(d.drop_last().drop_last()) == 0);
        assert(decimal_value(d.drop_last()) == p / 10);
        assert(decimal_value(d) == p);
    } else {
        assert(d.len() == 3 && d[0] == 48 + p / 100 && d[1] == 48 + (p / 10) % 10 && d[2] == 48 + p % 10);
        assert(d.drop_last().drop_last().drop_last() =~= Seq::<u8>::empty());
        assert(decimal_value(d.drop_last().drop_last().drop_last()) == 0);
        assert(decimal_value(d.drop_last().drop_last()) == p / 100);
        assert(decimal_value(d.drop_last()) == p / 10);
        assert(decimal_value(d) == p);
    }
    assert(parse_u8_text(d) == Some(p));
}

} // verus!
