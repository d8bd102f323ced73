//! Codes that a RINEX header carries: the satellite system and the file type.

use vstd::prelude::*;
use vstd::string::*;

verus! {

/// The satellite system of a RINEX file.
#[derive(Debug, Clone, Copy, PartialEq, Eq, Structural)]
pub enum RinexSystem {
    GPS,
    GLONASS,
    Galileo,
    SBAS,
    QZSS,
    BeiDou,
    IRNSS,
    /// More than one system.
    Mixed,
}

/// The one-letter code of system `s` in a RINEX header.
pub open spec fn rinex_system_letter(s: RinexSystem) -> char {
    match s {
        RinexSystem::GPS => 'G',
        RinexSystem::GLONASS => 'R',
        RinexSystem::Galileo => 'E',
        RinexSystem::SBAS => 'S',
        RinexSystem::QZSS => 'J',
        RinexSystem::BeiDou => 'C',
        RinexSystem::IRNSS => 'I',
        RinexSystem::Mixed => 'M',
    }
}

/// The system of an observation file that covers the systems whose letters
/// are `systems`: the one named where exactly one known letter is given,
/// mixed otherwise.
pub open spec fn rinex_system_for(systems: Seq<char>) -> RinexSystem {
    if systems.len() == 1 {
        match systems[0] {
            'G' => RinexSystem::GPS,
            'R' => RinexSystem::GLONASS,
            'E' => RinexSystem::Galileo,
            'C' => RinexSystem::BeiDou,
            'J' => RinexSystem::QZSS,
            'S' => RinexSystem::SBAS,
            'I' => RinexSystem::IRNSS,
            _ => RinexSystem::Mixed,
        }
    } else {
        RinexSystem::Mixed
    }
}

/// A file that covers one known system (`G`, `R`, `E`, `C`, `J`, `S` or `I`)
/// is of that system: its header letter is the letter given. Any other list
/// of systems gives a mixed file.
pub proof fn lemma_file_system_letter(systems: Seq<char>)
    ensures
        systems.len() == 1 && (systems[0] == 'G' || systems[0] == 'R' || systems[0] == 'E' || systems[0] == 'C'
            || systems[0] == 'J' || systems[0] == 'S' || systems[0] == 'I') ==> rinex_system_letter(
            rinex_system_for(systems),
        ) == systems[0],
        !(systems.len() == 1 && (systems[0] == 'G' || systems[0] == 'R' || systems[0] == 'E' || systems[0] == 'C'
            || systems[0] == 'J' || systems[0] == 'S' || systems[0] == 'I')) ==> rinex_system_letter(
            rinex_system_for(systems),
        ) == 'M',
{
}

impl RinexSystem {
    /// The header letter of the system.
    pub fn code(&self) -> (c: char)
        ensures
            c == rinex_system_letter(*self),
    {
        match self {
            RinexSystem::GPS => 'G',
            RinexSystem::GLONASS => 'R',
            RinexSystem::Galileo => 'E',
            RinexSystem::SBAS => 'S',
            RinexSystem::QZSS => 'J',
            RinexSystem::BeiDou => 'C',
            RinexSystem::IRNSS => 'I',
            RinexSystem::Mixed => 'M',
        }
    }

    /// The header letter of the system, as text.
    pub fn to_string(&self) -> (s: String)
        ensures
            s@ == seq![rinex_system_letter(*self)],
    {
        let text = match self {
            RinexSystem::GPS => "G",
            RinexSystem::GLONASS => "R",
            RinexSystem::Galileo => "E",
            RinexSystem::SBAS => "S",
            RinexSystem::QZSS => "J",
            RinexSystem::BeiDou => "C",
            RinexSystem::IRNSS => "I",
            RinexSystem::Mixed => "M",
        };
        proof {
            reveal_strlit("G");
            reveal_strlit("R");
            reveal_strlit("E");
            reveal_strlit("S");
            reveal_strlit("J");
            reveal_strlit("C");
            reveal_strlit("I");
            reveal_strlit("M");
        }
        String::from_str(text)
    }

    /// The system of an observation file that is to cover the systems whose
    /// letters are `systems`.
    pub fn for_systems(systems: &[char]) -> (r: RinexSystem)
        ensures
            r == rinex_system_for(systems@),
    {
        if systems.len() == 1 {
            match systems[0] {
                'G' => RinexSystem::GPS,
                'R' => RinexSystem::GLONASS,
                'E' => RinexSystem::Galileo,
                'C' => RinexSystem::BeiDou,
                'J' => RinexSystem::QZSS,
                'S' => RinexSystem::SBAS,
                'I' => RinexSystem::IRNSS,
                _ => RinexSystem::Mixed,
            }
        } else {
            RinexSystem::Mixed
        }
    }
}

/// The kind of data a RINEX file holds.
#[derive(Debug, Clone, Copy, PartialEq, Eq, Structural)]
pub enum RinexFileType {
    Observation,
    Navigation,
    Meteorological,
    Clock,
}

/// The one-letter code of file type `t` in a RINEX header.
pub open spec fn rinex_file_type_letter(t: RinexFileType) -> char {
    match t {
        RinexFileType::Observation => 'O',
        RinexFileType::Navigation => 'N',
        RinexFileType::Meteorological => 'M',
        RinexFileType::Clock => 'C',
    }
}

impl RinexFileType {
    /// The header letter of the file type.
    pub fn code(&self) -> (c: char)
        ensures
            c == rinex_file_type_letter(*self),
    {
        match self {
            RinexFileType::Observation => 'O',
            RinexFileType::Navigation => 'N',
            RinexFileType::Meteorological => 'M',
            RinexFileType::Clock => 'C',
        }
    }

    /// The header letter of the file type, as text.
    pub fn to_string(&self) -> (s: String)
        ensures
            s@ == seq![rinex_file_type_letter(*self)],
    {
        let text = match self {
            RinexFileType::Observation => "O",
            RinexFileType::Navigation => "N",
            RinexFileType::Meteorological => "M",
            RinexFileType::Clock => "C",
        };
        proof {
            reveal_strlit("O");
            reveal_strlit("N");
            reveal_strlit("M");
            reveal_strlit("C");
        }
        String::from_str(text)
    }
}

/// The frequency channel of a GLONASS satellite.
#[derive(Debug, Clone, Copy, PartialEq, Eq, Structural)]
pub struct GlonassFreqChannel {
    /// Slot number.
    pub prn: u8,
    /// Frequency channel number.
    pub freq_num: i8,
}

} // verus!
