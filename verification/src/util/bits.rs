//! A most-significant-bit-first reader over a byte slice.

use vstd::prelude::*;
use vstd::arithmetic::power2::*;
use vstd::arithmetic::div_mod::*;
use vstd::bits::*;

verus! {

/// Why a [`BitReader`] could not deliver what was asked of it.
#[derive(Debug, Clone, Copy, PartialEq, Eq, Structural)]
pub enum BitError {
    /// The data ended before the requested bits.
    UnexpectedEof,
    /// The request itself was not valid (too many bits, or a position outside the data).
    InvalidInput,
}

/// Bit number `p` of `data` (0 or 1), counting from the most significant bit of
/// the first byte.
pub open spec fn bit_at(data: Seq<u8>, p: int) -> nat {
    ((data[p / 8] as nat) / pow2((7 - p % 8) as nat)) % 2
}

/// The unsigned number formed by the `n` bits of `data` that start at bit `p`,
/// most significant bit first.
pub open spec fn bits_value(data: Seq<u8>, p: int, n: nat) -> nat
    decreases n,
{
    if n == 0 {
        0
    } else {
        bits_value(data, p, (n - 1) as nat) * 2 + bit_at(data, p + n - 1)
    }
}

/// The two's-complement number formed by the `n` bits of `data` that start at
/// bit `p`.
pub open spec fn bits_signed(data: Seq<u8>, p: int, n: nat) -> int {
    let u = bits_value(data, p, n);
    if n > 0 && u >= pow2((n - 1) as nat) {
        u - pow2(n)
    } else {
        u as int
    }
}

/// `n` bits hold a value below `2^n`.
pub proof fn lemma_bits_value_bound(data: Seq<u8>, p: int, n: nat)
    ensures
        bits_value(data, p, n) < pow2(n),
    decreases n,
{
    if n > 0 {
        lemma_bits_value_bound(data, p, (n - 1) as nat);
        lemma_pow2_unfold(n);
    } else {
        lemma2_to64();
    }
}

/// `n` two's-complement bits hold a value in `[-2^(n-1), 2^(n-1))`.
pub proof fn lemma_bits_signed_bound(data: Seq<u8>, p: int, n: nat)
    requires
        n >= 1,
    ensures
        -pow2((n - 1) as nat) <= bits_signed(data, p, n) < pow2((n - 1) as nat),
{
    lemma_bits_value_bound(data, p, n);
    lemma_pow2_unfold(n);
}

/// Reading `a` bits and then `k` more is reading `a + k` bits.
pub proof fn lemma_bits_value_concat(data: Seq<u8>, p: int, a: nat, k: nat)
    ensures
        bits_value(data, p, a + k) == bits_value(data, p, a) * pow2(k) + bits_value(data, p + a, k),
    decreases k,
{
    reveal(pow2);
    if k == 0 {
        assert(pow2(0) == 1) by { lemma2_to64(); }
    } else {
        lemma_bits_value_concat(data, p, a, (k - 1) as nat);
        lemma_pow2_unfold(k);
        let x = bits_value(data, p, a);
        let y = bits_value(data, p + a, (k - 1) as nat);
        let q = pow2((k - 1) as nat);
        let b = bit_at(data, p + a + k - 1);
        assert(bits_value(data, p, a + k) == (x * q + y) * 2 + b);
        assert((x * q + y) * 2 + b == x * (2 * q) + (y * 2 + b)) by (nonlinear_arith);
    }
}

/// The `k` bits of byte `q` that start at bit `j` of that byte are
/// `(byte / 2^(8-j-k)) % 2^k`.
pub proof fn lemma_bits_in_byte(data: Seq<u8>, q: int, j: nat, k: nat)
    requires
        0 <= q < data.len(),
        j + k <= 8,
    ensures
        bits_value(data, q * 8 + j, k) == ((data[q] as nat) / pow2((8 - j - k) as nat)) % pow2(k),
    decreases k,
{
    reveal(pow2);
    let b = data[q] as nat;
    if k == 0 {
        assert(pow2(0) == 1) by { lemma2_to64(); }
    } else {
        let k1 = (k - 1) as nat;
        lemma_bits_in_byte(data, q, j, k1);
        let s = (8 - j - k) as nat;
        let p = q * 8 + j + k1;
        assert(p / 8 == q && p % 8 == j + k1);
        assert(bit_at(data, p) == (b / pow2(s)) % 2);
        lemma_pow2_pos(s);
        lemma_pow2_pos(k1);
        lemma_pow2_unfold(s + 1);
        assert((s + 1) as nat - 1 == s);
        assert((8 - j - k1) as nat == s + 1);
        lemma_div_denominator(b as int, pow2(s) as int, 2);
        assert(b / pow2(s + 1) == (b / pow2(s)) / 2) by {
            assert(pow2(s + 1) == pow2(s) * 2);
        }
        lemma_mod_breakdown((b / pow2(s)) as int, 2, pow2(k1) as int);
        lemma_pow2_unfold(k);
    }
}


/// The mask `(1 << k) - 1`, computed in 16 bits and narrowed to a byte, keeps
/// the low `k` bits of a byte.
proof fn lemma_byte_mask(y: u8, k: u16)
    requires
        1 <= k <= 8,
    ensures
        (1u16 << k) as nat == pow2(k as nat),
        2 <= pow2(k as nat) <= 256,
        (((1u16 << k) - 1) as u8) as nat == pow2(k as nat) - 1,
        (y & (((1u16 << k) - 1) as u8)) as nat == (y as nat) % pow2(k as nat),
{
    lemma2_to64();
    if k < 8 {
        lemma_pow2_strictly_increases(k as nat, 8);
    }
    if k > 1 {
        lemma_pow2_strictly_increases(1, k as nat);
    }
    lemma_u16_shl_is_mul(1u16, k);
    lemma_pow2_pos(k as nat);
    if k < 8 {
        lemma_u8_low_bits_mask_is_mod(y, k as nat);
        assert(low_bits_mask(k as nat) == pow2(k as nat) - 1);
    } else {
        assert(y & 255u8 == y) by (bit_vector);
    }
}

/// Appending `k` bits `v` to an accumulator of `a` bits by shift-and-or.
proof fn lemma_append_bits(r: u32, a: nat, v: u32, k: u32)
    requires
        1 <= k <= 8,
        a + k <= 32,
        r < pow2(a),
        v < pow2(k as nat),
    ensures
        (r << k) | v == r * pow2(k as nat) + v,
        r * pow2(k as nat) + v < pow2(a + k as nat),
{
    lemma2_to64();
    lemma_pow2_pos(k as nat);
    lemma_pow2_adds(a, k as nat);
    lemma_u32_shl_is_mul(1u32, k);
    assert(r * pow2(k as nat) + v < pow2(a + k as nat)) by (nonlinear_arith)
        requires
            r < pow2(a),
            v < pow2(k as nat),
            pow2(a + k as nat) == pow2(a) * pow2(k as nat),
    ;
    if a + k < 32 {
        lemma_pow2_strictly_increases(a + k as nat, 32);
    }
    lemma_u32_shl_is_mul(r, k);
    lemma_shl_or_is_add(r, v, k);
}

/// Or-ing a value below `2^k` into a word shifted left by `k` is adding it.
proof fn lemma_shl_or_is_add(a: u32, v: u32, k: u32)
    by (bit_vector)
    requires
        k < 32,
        v < (1u32 << k),
    ensures
        (a << k) | v == (a << k) + v,
{
}

/// Sign extension of an `n`-bit two's-complement value held in a `u32`.
proof fn lemma_sign_bit(u: u32, n: u32)
    by (bit_vector)
    requires
        1 <= n <= 32,
        n < 32 ==> u < (1u32 << n),
    ensures
        ((u & (1u32 << (n - 1) as u32)) != 0) == (u >= (1u32 << (n - 1) as u32)),
{
}

proof fn lemma_sign_extend(u: u32, n: u32)
    by (bit_vector)
    requires
        1 <= n <= 31,
        u < (1u32 << n),
        u >= (1u32 << (n - 1) as u32),
    ensures
        ((u | !(((1u32 << n) - 1u32) as u32)) as i32) as int == u as int - (1u32 << n) as int,
{
}


/// Reads fields of any width from a byte slice, most significant bit first.
#[derive(Debug)]
pub struct BitReader<'a> {
    data: &'a [u8],
    byte_pos: usize,
    bit_pos: usize,
}

impl<'a> BitReader<'a> {
    /// The bytes being read.
    pub closed spec fn data(&self) -> Seq<u8> {
        self.data@
    }

    /// The reading position, in bits from the start of the data.
    pub closed spec fn pos(&self) -> nat {
        (self.byte_pos * 8 + self.bit_pos) as nat
    }

    /// Number of bits in the data.
    pub open spec fn total_bits(&self) -> nat {
        self.data().len() * 8
    }

    /// The reader's invariant: the position lies within the data, and the
    /// data's length in bits fits in a `usize`.
    pub closed spec fn wf(&self) -> bool {
        &&& self.bit_pos < 8
        &&& self.byte_pos * 8 + self.bit_pos <= self.data@.len() * 8
        &&& self.data@.len() * 8 <= usize::MAX
    }

    /// A well-formed reader's position lies within the data.
    pub proof fn lemma_pos_in_data(&self)
        requires
            self.wf(),
        ensures
            self.pos() <= self.total_bits(),
            self.total_bits() <= usize::MAX,
    {
    }

    /// A reader positioned at the first bit of `data`.
    pub fn new(data: &'a [u8]) -> (r: Self)
        requires
            data@.len() * 8 <= usize::MAX,
        ensures
            r.wf(),
            r.data() == data@,
            r.pos() == 0,
    {
        Self { data, byte_pos: 0, bit_pos: 0 }
    }

    /// Whether any bit is left to read.
    pub fn has_more(&self) -> (r: bool)
        requires
            self.wf(),
        ensures
            r == (self.pos() < self.total_bits()),
    {
        self.byte_pos < self.data.len()
    }

    /// Reads one bit.
    pub fn read_bit(&mut self) -> (r: Result<bool, BitError>)
        requires
            old(self).wf(),
        ensures
            final(self).wf(),
            final(self).data() == old(self).data(),
            old(self).pos() < old(self).total_bits() ==> {
                &&& r == Ok::<bool, BitError>(bit_at(old(self).data(), old(self).pos() as int) == 1)
                &&& final(self).pos() == old(self).pos() + 1
            },
            old(self).pos() >= old(self).total_bits() ==> {
                &&& r == Err::<bool, BitError>(BitError::UnexpectedEof)
                &&& final(self).pos() == old(self).pos()
            },
    {
        if self.byte_pos >= self.data.len() {
            return Err(BitError::UnexpectedEof);
        }
        let byte = self.data[self.byte_pos];
        let shift = (7 - self.bit_pos) as u8;
        let bit = (byte >> shift) & 0x01;
        proof {
            let p = old(self).pos() as int;
            assert(p / 8 == self.byte_pos && p % 8 == self.bit_pos);
            lemma_u8_shr_is_div(byte, shift);
            let y = byte >> shift;
            assert(y & 1 == y % 2) by (bit_vector);
        }
        if self.bit_pos + 1 >= 8 {
            self.bit_pos = 0;
            self.byte_pos = self.byte_pos + 1;
        } else {
            self.bit_pos = self.bit_pos + 1;
        }
        Ok(bit != 0)
    }

    /// What reading `n` unsigned bits from `old` gives and where it leaves the
    /// reader: more than 32 bits is refused with the reader untouched; past the
    /// end of the data the reader is left at the end.
    pub open spec fn read_unsigned_post(old: Self, new: Self, n: nat, r: Result<u32, BitError>) -> bool {
        &&& new.wf()
        &&& new.data() == old.data()
        &&& n > 32 ==> r == Err::<u32, BitError>(BitError::InvalidInput) && new.pos() == old.pos()
        &&& n <= 32 && old.pos() + n <= old.total_bits() ==> {
            &&& r is Ok
            &&& r->Ok_0 as nat == bits_value(old.data(), old.pos() as int, n)
            &&& new.pos() == old.pos() + n
        }
        &&& n <= 32 && old.pos() + n > old.total_bits() ==> {
            &&& r == Err::<u32, BitError>(BitError::UnexpectedEof)
            &&& new.pos() == old.total_bits()
        }
    }

    /// Reads `bit_count` bits as an unsigned number, one bit at a time.
    pub fn read_bits(&mut self, bit_count: usize) -> (r: Result<u32, BitError>)
        requires
            old(self).wf(),
        ensures
            Self::read_unsigned_post(*old(self), *final(self), bit_count as nat, r),
    {
        if bit_count > 32 {
            return Err(BitError::InvalidInput);
        }
        let ghost start = self.pos();
        let ghost data = self.data();
        let mut result = 0u32;
        let mut i: usize = 0;
        proof {
            lemma2_to64();
        }
        while i < bit_count
            invariant
                self.wf(),
                self.data() == data,
                data == old(self).data(),
                start == old(self).pos(),
                data.len() * 8 == self.total_bits(),
                bit_count <= 32,
                i <= bit_count,
                self.pos() == start + i,
                start + i <= self.total_bits(),
                result as nat == bits_value(data, start as int, i as nat),
            decreases bit_count - i,
        {
            let ghost before = self.pos();
            let b = self.read_bit();
            match b {
                Err(e) => {
                    return Err(e);
                },
                Ok(bit) => {
                    proof {
                        lemma_bits_value_bound(data, start as int, i as nat);
                        if i < 31 {
                            lemma_pow2_strictly_increases(i as nat, 31);
                        }
                        assert(pow2(31) == 0x8000_0000) by { lemma2_to64(); }
                        assert(result < 0x8000_0000u32);
                    }
                    let v: u32 = if bit { 1 } else { 0 };
                    proof {
                        assert(((result << 1u32) | v) == result * 2 + v) by (bit_vector)
                            requires result < 0x8000_0000u32, v <= 1;
                    }
                    result = (result << 1u32) | v;
                    i = i + 1;
                },
            }
        }
        Ok(result)
    }

    /// Reads `bit_count` bits as an unsigned number, taking as many bits as the
    /// current byte offers at each step.
    pub fn read_bits_u32(&mut self, bit_count: usize) -> (r: Result<u32, BitError>)
        requires
            old(self).wf(),
        ensures
            Self::read_unsigned_post(*old(self), *final(self), bit_count as nat, r),
    {
        if bit_count > 32 {
            return Err(BitError::InvalidInput);
        }
        let ghost start = self.pos();
        let ghost data = self.data();
        let mut result = 0u32;
        let mut bits_read: usize = 0;
        proof {
            lemma2_to64();
        }
        while bits_read < bit_count && self.byte_pos < self.data.len()
            invariant
                self.wf(),
                self.data() == data,
                data == old(self).data(),
                start == old(self).pos(),
                bit_count <= 32,
                bits_read <= bit_count,
                self.pos() == start + bits_read,
                result as nat == bits_value(data, start as int, bits_read as nat),
                result < pow2(bits_read as nat),
            decreases bit_count - bits_read,
        {
            let available_bits = 8 - self.bit_pos;
            let bits_to_read = if bit_count - bits_read < available_bits {
                bit_count - bits_read
            } else {
                available_bits
            };
            let byte = self.data[self.byte_pos];
            let shift = (available_bits - bits_to_read) as u8;
            proof {
                lemma_byte_mask(byte >> shift, bits_to_read as u16);
            }
            let mask = ((1u16 << (bits_to_read as u16)) - 1) as u8;
            let shifted = (byte >> shift) & mask;
            proof {
                let k = bits_to_read as nat;
                let j = self.bit_pos as nat;
                let q = self.byte_pos as int;
                lemma_u8_shr_is_div(byte, shift);
                lemma_byte_mask(byte >> shift, bits_to_read as u16);
                lemma_bits_in_byte(data, q, j, k);
                assert(q * 8 + j == start + bits_read);
                assert(shifted as nat == bits_value(data, start + bits_read, k));
                lemma_bits_value_bound(data, start + bits_read, k);
                lemma_append_bits(result, bits_read as nat, shifted as u32, bits_to_read as u32);
                lemma_bits_value_concat(data, start as int, bits_read as nat, k);
            }
            result = (result << (bits_to_read as u32)) | (shifted as u32);
            if self.bit_pos + bits_to_read >= 8 {
                self.bit_pos = 0;
                self.byte_pos = self.byte_pos + 1;
            } else {
                self.bit_pos = self.bit_pos + bits_to_read;
            }
            bits_read = bits_read + bits_to_read;
        }
        if bits_read < bit_count {
            Err(BitError::UnexpectedEof)
        } else {
            Ok(result)
        }
    }

    /// What reading `n` two's-complement bits from `old` gives and where it
    /// leaves the reader.
    pub open spec fn read_signed_post(old: Self, new: Self, n: nat, r: Result<i32, BitError>) -> bool {
        &&& new.wf()
        &&& new.data() == old.data()
        &&& n > 32 ==> r == Err::<i32, BitError>(BitError::InvalidInput) && new.pos() == old.pos()
        &&& n == 0 ==> r == Ok::<i32, BitError>(0) && new.pos() == old.pos()
        &&& 1 <= n <= 32 && old.pos() + n <= old.total_bits() ==> {
            &&& r is Ok
            &&& r->Ok_0 as int == bits_signed(old.data(), old.pos() as int, n)
            &&& new.pos() == old.pos() + n
        }
        &&& 1 <= n <= 32 && old.pos() + n > old.total_bits() ==> {
            &&& r == Err::<i32, BitError>(BitError::UnexpectedEof)
            &&& new.pos() == old.total_bits()
        }
    }

    /// Sign-extends the `n`-bit field `unsigned`.
    fn sign_extend(unsigned: u32, bit_count: usize) -> (r: i32)
        requires
            1 <= bit_count <= 32,
            unsigned < pow2(bit_count as nat),
        ensures
            r as int == (if unsigned >= pow2((bit_count - 1) as nat) {
                unsigned - pow2(bit_count as nat)
            } else {
                unsigned as int
            }),
    {
        proof {
            lemma2_to64();
            lemma_u32_shl_is_mul(1u32, (bit_count - 1) as u32);
            if bit_count < 32 {
                lemma_u32_shl_is_mul(1u32, bit_count as u32);
            }
            lemma_sign_bit(unsigned, bit_count as u32);
        }
        if bit_count == 32 {
            proof {
                assert((unsigned as i32) as int == (if unsigned >= 0x8000_0000u32 {
                    unsigned as int - 0x1_0000_0000int
                } else {
                    unsigned as int
                })) by (bit_vector);
            }
            return unsigned as i32;
        }
        let sign_bit = 1u32 << ((bit_count - 1) as u32);
        if (unsigned & sign_bit) != 0 {
            proof {
                lemma_sign_extend(unsigned, bit_count as u32);
            }
            let mask = !((1u32 << (bit_count as u32)) - 1);
            (unsigned | mask) as i32
        } else {
            unsigned as i32
        }
    }

    /// Reads `bit_count` bits as a two's-complement number.
    pub fn read_bits_signed(&mut self, bit_count: usize) -> (r: Result<i32, BitError>)
        requires
            old(self).wf(),
        ensures
            Self::read_signed_post(*old(self), *final(self), bit_count as nat, r),
    {
        if bit_count > 32 {
            return Err(BitError::InvalidInput);
        }
        if bit_count == 0 {
            return Ok(0);
        }
        let ghost start = self.pos();
        let unsigned = self.read_bits(bit_count)?;
        proof {
            lemma_bits_value_bound(self.data(), start as int, bit_count as nat);
        }
        Ok(Self::sign_extend(unsigned, bit_count))
    }

    /// Reads `bit_count` bits as a two's-complement number, taking whole
    /// runs of bits from each byte.
    pub fn read_bits_i32(&mut self, bit_count: usize) -> (r: Result<i32, BitError>)
        requires
            old(self).wf(),
        ensures
            Self::read_signed_post(*old(self), *final(self), bit_count as nat, r),
    {
        if bit_count > 32 {
            return Err(BitError::InvalidInput);
        }
        let ghost start = self.pos();
        let unsigned = self.read_bits_u32(bit_count)?;
        if bit_count == 0 {
            return Ok(0);
        }
        proof {
            lemma_bits_value_bound(self.data(), start as int, bit_count as nat);
        }
        Ok(Self::sign_extend(unsigned, bit_count))
    }

    /// Moves the position forward by `bit_count` bits, if the data holds them.
    pub fn skip_bits(&mut self, bit_count: usize) -> (r: Result<(), BitError>)
        requires
            old(self).wf(),
            old(self).pos() + bit_count <= usize::MAX,
        ensures
            final(self).wf(),
            final(self).data() == old(self).data(),
            old(self).pos() + bit_count <= old(self).total_bits() ==> {
                &&& r is Ok
                &&& final(self).pos() == old(self).pos() + bit_count
            },
            old(self).pos() + bit_count > old(self).total_bits() ==> {
                &&& r == Err::<(), BitError>(BitError::UnexpectedEof)
                &&& final(self).pos() == old(self).pos()
            },
    {
        let total_bits = self.data.len() * 8;
        let current_pos = self.byte_pos * 8 + self.bit_pos;
        let new_pos = current_pos + bit_count;
        if new_pos > total_bits {
            return Err(BitError::UnexpectedEof);
        }
        self.byte_pos = new_pos / 8;
        self.bit_pos = new_pos % 8;
        Ok(())
    }

    /// Moves the position to the start of the next byte, unless it already is
    /// at the start of a byte.
    pub fn align_to_byte(&mut self)
        requires
            old(self).wf(),
        ensures
            final(self).wf(),
            final(self).data() == old(self).data(),
            final(self).pos() == (if old(self).pos() % 8 == 0 {
                old(self).pos()
            } else {
                (old(self).pos() / 8 + 1) * 8
            }),
    {
        if self.bit_pos > 0 {
            self.bit_pos = 0;
            self.byte_pos = self.byte_pos + 1;
        }
    }

    /// The position as (byte index, bit index within the byte).
    pub fn position(&self) -> (r: (usize, usize))
        requires
            self.wf(),
        ensures
            r.0 == self.pos() / 8,
            r.1 == self.pos() % 8,
    {
        (self.byte_pos, self.bit_pos)
    }

    /// Moves to bit `bit_pos` of byte `byte_pos`; both must lie inside the data.
    pub fn set_position(&mut self, byte_pos: usize, bit_pos: usize) -> (r: Result<(), BitError>)
        requires
            old(self).wf(),
        ensures
            final(self).wf(),
            final(self).data() == old(self).data(),
            byte_pos < old(self).data().len() && bit_pos < 8 ==> {
                &&& r is Ok
                &&& final(self).pos() == byte_pos * 8 + bit_pos
            },
            !(byte_pos < old(self).data().len() && bit_pos < 8) ==> {
                &&& r == Err::<(), BitError>(BitError::InvalidInput)
                &&& final(self).pos() == old(self).pos()
            },
    {
        if byte_pos >= self.data.len() || (byte_pos == self.data.len() - 1 && bit_pos >= 8) {
            return Err(BitError::InvalidInput);
        }
        if bit_pos >= 8 {
            return Err(BitError::InvalidInput);
        }
        self.byte_pos = byte_pos;
        self.bit_pos = bit_pos;
        Ok(())
    }
}

/// The two unsigned reads agree: whatever one of [`BitReader::read_bits`] and
/// [`BitReader::read_bits_u32`] gives from a reader, the other gives too, and
/// both leave the reader at the same position.
pub proof fn lemma_unsigned_reads_agree<'a>(
    old: BitReader<'a>,
    new1: BitReader<'a>,
    new2: BitReader<'a>,
    n: nat,
    r1: Result<u32, BitError>,
    r2: Result<u32, BitError>,
)
    requires
        BitReader::read_unsigned_post(old, new1, n, r1),
        BitReader::read_unsigned_post(old, new2, n, r2),
    ensures
        r1 == r2,
        new1.pos() == new2.pos(),
{
}

/// The two signed reads agree: whatever one of
/// [`BitReader::read_bits_signed`] and [`BitReader::read_bits_i32`] gives from
/// a reader, the other gives too, and both leave the reader at the same
/// position.
pub proof fn lemma_signed_reads_agree<'a>(
    old: BitReader<'a>,
    new1: BitReader<'a>,
    new2: BitReader<'a>,
    n: nat,
    r1: Result<i32, BitError>,
    r2: Result<i32, BitError>,
)
    requires
        BitReader::read_signed_post(old, new1, n, r1),
        BitReader::read_signed_post(old, new2, n, r2),
    ensures
        r1 == r2,
        new1.pos() == new2.pos(),
{
}

} // verus!
