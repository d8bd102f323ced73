//! The CRC-24Q checksum of RTCM frames: its bit-serial definition, the
//! 256-entry lookup table used to compute it a byte at a time, and the facts
//! that tie the two together.

use vstd::prelude::*;

verus! {

/// One bit-serial step of CRC-24Q (generator 0x1864CFB) on a register below 2^24.
pub open spec fn crc24q_shift(c: u32) -> u32 {
    if ((c << 1u32) & 0x1000000u32) != 0 {
        (c << 1u32) ^ 0x1864CFBu32
    } else {
        c << 1u32
    }
}

/// Folds byte `b` (below 256) into the CRC-24Q register `crc`, bit by bit.
pub open spec fn crc24q_byte(crc: u32, b: u32) -> u32 {
    let c0 = crc ^ (b << 16u32);
    let c1 = crc24q_shift(c0);
    let c2 = crc24q_shift(c1);
    let c3 = crc24q_shift(c2);
    let c4 = crc24q_shift(c3);
    let c5 = crc24q_shift(c4);
    let c6 = crc24q_shift(c5);
    let c7 = crc24q_shift(c6);
    crc24q_shift(c7)
}

/// The CRC-24Q of `data`, with a zero initial register, by its bit-serial
/// definition.
pub open spec fn crc24q(data: Seq<u8>) -> u32
    decreases data.len(),
{
    if data.len() == 0 {
        0
    } else {
        crc24q_byte(crc24q(data.drop_last()), data.last() as u32)
    }
}

/// Entry `i` of the byte-at-a-time lookup table that the RTCM 3 decoder uses.
pub open spec fn crc24q_table_entry(i: int) -> u32 {
    if i == 0 {
        0x000000
    } else if i == 1 {
        0x864CFB
    } else if i == 2 {
        0x8AD50D
    } else if i == 3 {
        0x0C99F6
    } else if i == 4 {
        0x93E6E1
    } else if i == 5 {
        0x15AA1A
    } else if i == 6 {
        0x1933EC
    } else if i == 7 {
        0x9F7F17
    } else if i == 8 {
        0xA18139
    } else if i == 9 {
        0x27CDC2
    } else if i == 10 {
        0x2B5434
    } else if i == 11 {
        0xAD18CF
    } else if i == 12 {
        0x3267D8
    } else if i == 13 {
        0xB42B23
    } else if i == 14 {
        0xB8B2D5
    } else if i == 15 {
        0x3EFE2E
    } else if i == 16 {
        0xC54E89
    } else if i == 17 {
        0x430272
    } else if i == 18 {
        0x4F9B84
    } else if i == 19 {
        0xC9D77F
    } else if i == 20 {
        0x56A868
    } else if i == 21 {
        0xD0E493
    } else if i == 22 {
        0xDC7D65
    } else if i == 23 {
        0x5A319E
    } else if i == 24 {
        0x64CFB0
    } else if i == 25 {
        0xE2834B
    } else if i == 26 {
        0xEE1ABD
    } else if i == 27 {
        0x685646
    } else if i == 28 {
        0xF72951
    } else if i == 29 {
        0x7165AA
    } else if i == 30 {
        0x7DFC5C
    } else if i == 31 {
        0xFBB0A7
    } else if i == 32 {
        0x0CD1E9
    } else if i == 33 {
        0x8A9D12
    } else if i == 34 {
        0x8604E4
    } else if i == 35 {
        0x00481F
    } else if i == 36 {
        0x9F3708
    } else if i == 37 {
        0x197BF3
    } else if i == 38 {
        0x15E205
    } else if i == 39 {
        0x93AEFE
    } else if i == 40 {
        0xAD50D0
    } else if i == 41 {
        0x2B1C2B
    } else if i == 42 {
        0x2785DD
    } else if i == 43 {
        0xA1C926
    } else if i == 44 {
        0x3EB631
    } else if i == 45 {
        0xB8FACA
    } else if i == 46 {
        0xB4633C
    } else if i == 47 {
        0x322FC7
    } else if i == 48 {
        0xC99F60
    } else if i == 49 {
        0x4FD39B
    } else if i == 50 {
        0x434A6D
    } else if i == 51 {
        0xC50696
    } else if i == 52 {
        0x5A7981
    } else if i == 53 {
        0xDC357A
    } else if i == 54 {
        0xD0AC8C
    } else if i == 55 {
        0x56E077
    } else if i == 56 {
        0x681E59
    } else if i == 57 {
        0xEE52A2
    } else if i == 58 {
        0xE2CB54
    } else if i == 59 {
        0x6487AF
    } else if i == 60 {
        0xFBF8B8
    } else if i == 61 {
        0x7DB443
    } else if i == 62 {
        0x712DB5
    } else if i == 63 {
        0xF7614E
    } else if i == 64 {
        0x19A3D2
    } else if i == 65 {
        0x9FEF29
    } else if i == 66 {
        0x9376DF
    } else if i == 67 {
        0x153A24
    } else if i == 68 {
        0x8A4533
    } else if i == 69 {
        0x0C09C8
    } else if i == 70 {
        0x00903E
    } else if i == 71 {
        0x86DCC5
    } else if i == 72 {
        0xB822EB
    } else if i == 73 {
        0x3E6E10
    } else if i == 74 {
        0x32F7E6
    } else if i == 75 {
        0xB4BB1D
    } else if i == 76 {
        0x2BC40A
    } else if i == 77 {
        0xAD88F1
    } else if i == 78 {
        0xA11107
    } else if i == 79 {
        0x275DFC
    } else if i == 80 {
        0xDCED5B
    } else if i == 81 {
        0x5AA1A0
    } else if i == 82 {
        0x563856
    } else if i == 83 {
        0xD074AD
    } else if i == 84 {
        0x4F0BBA
    } else if i == 85 {
        0xC94741
    } else if i == 86 {
        0xC5DEB7
    } else if i == 87 {
        0x43924C
    } else if i == 88 {
        0x7D6C62
    } else if i == 89 {
        0xFB2099
    } else if i == 90 {
        0xF7B96F
    } else if i == 91 {
        0x71F594
    } else if i == 92 {
        0xEE8A83
    } else if i == 93 {
        0x68C678
    } else if i == 94 {
        0x645F8E
    } else if i == 95 {
        0xE21375
    } else if i == 96 {
        0x15723B
    } else if i == 97 {
        0x933EC0
    } else if i == 98 {
        0x9FA736
    } else if i == 99 {
        0x19EBCD
    } else if i == 100 {
        0x8694DA
    } else if i == 101 {
        0x00D821
    } else if i == 102 {
        0x0C41D7
    } else if i == 103 {
        0x8A0D2C
    } else if i == 104 {
        0xB4F302
    } else if i == 105 {
        0x32BFF9
    } else if i == 106 {
        0x3E260F
    } else if i == 107 {
        0xB86AF4
    } else if i == 108 {
        0x2715E3
    } else if i == 109 {
        0xA15918
    } else if i == 110 {
        0xADC0EE
    } else if i == 111 {
        0x2B8C15
    } else if i == 112 {
        0xD03CB2
    } else if i == 113 {
        0x567049
    } else if i == 114 {
        0x5AE9BF
    } else if i == 115 {
        0xDCA544
    } else if i == 116 {
        0x43DA53
    } else if i == 117 {
        0xC596A8
    } else if i == 118 {
        0xC90F5E
    } else if i == 119 {
        0x4F43A5
    } else if i == 120 {
        0x71BD8B
    } else if i == 121 {
        0xF7F170
    } else if i == 122 {
        0xFB6886
    } else if i == 123 {
        0x7D247D
    } else if i == 124 {
        0xE25B6A
    } else if i == 125 {
        0x641791
    } else if i == 126 {
        0x688E67
    } else if i == 127 {
        0xEEC29C
    } else if i == 128 {
        0x3347A4
    } else if i == 129 {
        0xB50B5F
    } else if i == 130 {
        0xB992A9
    } else if i == 131 {
        0x3FDE52
    } else if i == 132 {
        0xA0A145
    } else if i == 133 {
        0x26EDBE
    } else if i == 134 {
        0x2A7448
    } else if i == 135 {
        0xAC38B3
    } else if i == 136 {
        0x92C69D
    } else if i == 137 {
        0x148A66
    } else if i == 138 {
        0x181390
    } else if i == 139 {
        0x9E5F6B
    } else if i == 140 {
        0x01207C
    } else if i == 141 {
        0x876C87
    } else if i == 142 {
        0x8BF571
    } else if i == 143 {
        0x0DB98A
    } else if i == 144 {
        0xF6092D
    } else if i == 145 {
        0x7045D6
    } else if i == 146 {
        0x7CDC20
    } else if i == 147 {
        0xFA90DB
    } else if i == 148 {
        0x65EFCC
    } else if i == 149 {
        0xE3A337
    } else if i == 150 {
        0xEF3AC1
    } else if i == 151 {
        0x69763A
    } else if i == 152 {
        0x578814
    } else if i == 153 {
        0xD1C4EF
    } else if i == 154 {
        0xDD5D19
    } else if i == 155 {
        0x5B11E2
    } else if i == 156 {
        0xC46EF5
    } else if i == 157 {
        0x42220E
    } else if i == 158 {
        0x4EBBF8
    } else if i == 159 {
        0xC8F703
    } else if i == 160 {
        0x3F964D
    } else if i == 161 {
        0xB9DAB6
    } else if i == 162 {
        0xB54340
    } else if i == 163 {
        0x330FBB
    } else if i == 164 {
        0xAC70AC
    } else if i == 165 {
        0x2A3C57
    } else if i == 166 {
        0x26A5A1
    } else if i == 167 {
        0xA0E95A
    } else if i == 168 {
        0x9E1774
    } else if i == 169 {
        0x185B8F
    } else if i == 170 {
        0x14C279
    } else if i == 171 {
        0x928E82
    } else if i == 172 {
        0x0DF195
    } else if i == 173 {
        0x8BBD6E
    } else if i == 174 {
        0x872498
    } else if i == 175 {
        0x016863
    } else if i == 176 {
        0xFAD8C4
    } else if i == 177 {
        0x7C943F
    } else if i == 178 {
        0x700DC9
    } else if i == 179 {
        0xF64132
    } else if i == 180 {
        0x693E25
    } else if i == 181 {
        0xEF72DE
    } else if i == 182 {
        0xE3EB28
    } else if i == 183 {
        0x65A7D3
    } else if i == 184 {
        0x5B59FD
    } else if i == 185 {
        0xDD1506
    } else if i == 186 {
        0xD18CF0
    } else if i == 187 {
        0x57C00B
    } else if i == 188 {
        0xC8BF1C
    } else if i == 189 {
        0x4EF3E7
    } else if i == 190 {
        0x426A11
    } else if i == 191 {
        0xC426EA
    } else if i == 192 {
        0x2AE476
    } else if i == 193 {
        0xACA88D
    } else if i == 194 {
        0xA0317B
    } else if i == 195 {
        0x267D80
    } else if i == 196 {
        0xB90297
    } else if i == 197 {
        0x3F4E6C
    } else if i == 198 {
        0x33D79A
    } else if i == 199 {
        0xB59B61
    } else if i == 200 {
        0x8B654F
    } else if i == 201 {
        0x0D29B4
    } else if i == 202 {
        0x01B042
    } else if i == 203 {
        0x87FCB9
    } else if i == 204 {
        0x1883AE
    } else if i == 205 {
        0x9ECF55
    } else if i == 206 {
        0x9256A3
    } else if i == 207 {
        0x141A58
    } else if i == 208 {
        0xEFAAFF
    } else if i == 209 {
        0x69E604
    } else if i == 210 {
        0x657FF2
    } else if i == 211 {
        0xE33309
    } else if i == 212 {
        0x7C4C1E
    } else if i == 213 {
        0xFA00E5
    } else if i == 214 {
        0xF69913
    } else if i == 215 {
        0x70D5E8
    } else if i == 216 {
        0x4E2BC6
    } else if i == 217 {
        0xC8673D
    } else if i == 218 {
        0xC4FECB
    } else if i == 219 {
        0x42B230
    } else if i == 220 {
        0xDDCD27
    } else if i == 221 {
        0x5B81DC
    } else if i == 222 {
        0x57182A
    } else if i == 223 {
        0xD154D1
    } else if i == 224 {
        0x26359F
    } else if i == 225 {
        0xA07964
    } else if i == 226 {
        0xACE092
    } else if i == 227 {
        0x2AAC69
    } else if i == 228 {
        0xB5D37E
    } else if i == 229 {
        0x339F85
    } else if i == 230 {
        0x3F0673
    } else if i == 231 {
        0xB94A88
    } else if i == 232 {
        0x87B4A6
    } else if i == 233 {
        0x01F85D
    } else if i == 234 {
        0x0D61AB
    } else if i == 235 {
        0x8B2D50
    } else if i == 236 {
        0x145247
    } else if i == 237 {
        0x921EBC
    } else if i == 238 {
        0x9E874A
    } else if i == 239 {
        0x18CBB1
    } else if i == 240 {
        0xE37B16
    } else if i == 241 {
        0x6537ED
    } else if i == 242 {
        0x69AE1B
    } else if i == 243 {
        0xEFE2E0
    } else if i == 244 {
        0x709DF7
    } else if i == 245 {
        0xF6D10C
    } else if i == 246 {
        0xFA48FA
    } else if i == 247 {
        0x7C0401
    } else if i == 248 {
        0x42FA2F
    } else if i == 249 {
        0xC4B6D4
    } else if i == 250 {
        0xC82F22
    } else if i == 251 {
        0x4E63D9
    } else if i == 252 {
        0xD11CCE
    } else if i == 253 {
        0x575035
    } else if i == 254 {
        0x5BC9C3
    } else {
        0xDD8538
    }
}

/// One byte-at-a-time step with the lookup table.
pub open spec fn crc24q_table_step(crc: u32, b: u8) -> u32 {
    ((crc << 8u32) & 0xFFFFFFu32) ^ crc24q_table_entry(((crc >> 16u32) ^ (b as u32)) as int)
}

/// The checksum that the lookup-table computation yields for `data`.
pub open spec fn crc24q_by_table(data: Seq<u8>) -> u32
    decreases data.len(),
{
    if data.len() == 0 {
        0
    } else {
        crc24q_table_step(crc24q_by_table(data.drop_last()), data.last())
    }
}

/// A bit-serial step keeps the register below 2^24.
pub proof fn lemma_crc24q_shift_bound(c: u32)
    by (bit_vector)
    requires
        c < 0x1000000u32,
    ensures
        crc24q_shift(c) < 0x1000000u32,
{
}

/// Folding in a byte keeps the register below 2^24.
pub proof fn lemma_crc24q_byte_bound(crc: u32, b: u32)
    by (bit_vector)
    requires
        crc < 0x1000000u32,
        b < 256,
    ensures
        crc24q_byte(crc, b) < 0x1000000u32,
{
}

/// Folding a byte into a register equals shifting the register by a byte
/// and adding the fold of the index byte into a zero register.
proof fn lemma_crc24q_byte_split(crc: u32, b: u32)
    by (bit_vector)
    requires
        crc < 0x1000000u32,
        b < 256,
    ensures
        crc24q_byte(crc, b) == ((crc << 8u32) & 0xFFFFFFu32) ^ crc24q_byte(0, (crc >> 16u32) ^ b),
{
}

/// Every table entry is the bit-serial fold of its index into a zero
/// register.
#[verifier::rlimit(100)]
proof fn lemma_crc24q_table_entries(i: u32)
    by (bit_vector)
    requires
        i < 256,
    ensures
        crc24q_table_entry(i as int) == crc24q_byte(0, i),
{
}

/// The register index used by a table step lies within the table.
pub proof fn lemma_crc24q_index_bound(crc: u32, b: u32)
    by (bit_vector)
    requires
        crc < 0x1000000u32,
        b < 256,
    ensures
        (crc >> 16u32) ^ b < 256,
{
}

/// Both ways of computing the checksum leave it below 2^24.
pub proof fn lemma_crc24q_bounds(data: Seq<u8>)
    ensures
        crc24q(data) < 0x1000000u32,
        crc24q_by_table(data) < 0x1000000u32,
    decreases data.len(),
{
    if data.len() > 0 {
        lemma_crc24q_bounds(data.drop_last());
        lemma_crc24q_byte_bound(crc24q(data.drop_last()), data.last() as u32);
        let c = crc24q_by_table(data.drop_last());
        let b = data.last() as u32;
        let e = crc24q_table_entry(((c >> 16u32) ^ b) as int);
        assert(((c << 8u32) & 0xFFFFFFu32) ^ e < 0x1000000u32) by {
            lemma_crc24q_index_bound(c, b);
            lemma_crc24q_table_entry_bound(((c >> 16u32) ^ b) as int);
            lemma_crc24q_xor_bound(c, e);
        }
    }
}

proof fn lemma_crc24q_xor_bound(c: u32, e: u32)
    by (bit_vector)
    requires
        e < 0x1000000u32,
    ensures
        ((c << 8u32) & 0xFFFFFFu32) ^ e < 0x1000000u32,
{
}

/// Every table entry is below 2^24.
proof fn lemma_crc24q_table_entry_bound(i: int)
    requires
        0 <= i < 256,
    ensures
        crc24q_table_entry(i) < 0x1000000u32,
{
}

/// The lookup table gives the CRC-24Q of its definition on every input.
pub proof fn lemma_crc24q_table_agrees(data: Seq<u8>)
    ensures
        crc24q_by_table(data) == crc24q(data),
    decreases data.len(),
{
    if data.len() > 0 {
        let d = data.drop_last();
        lemma_crc24q_table_agrees(d);
        lemma_crc24q_bounds(d);
        let c = crc24q(d);
        let b = data.last() as u32;
        lemma_crc24q_index_bound(c, b);
        lemma_crc24q_table_entries((c >> 16u32) ^ b);
        lemma_crc24q_byte_split(c, b);
    }
}

} // verus!
