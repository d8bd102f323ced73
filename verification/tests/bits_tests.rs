use rtcm2rinex::util::bits::{BitError, BitReader};

#[test]
fn reads_fields_most_significant_bit_first() {
    let data = [0b1011_0010u8, 0xFF, 0x00, 0x80];
    let mut r = BitReader::new(&data);
    assert_eq!(r.read_bit(), Ok(true));
    assert_eq!(r.read_bits(3), Ok(0b011));
    assert_eq!(r.position(), (0, 4));
    assert_eq!(r.read_bits_u32(8), Ok(0b0010_1111));
    assert_eq!(r.position(), (1, 4));
    assert_eq!(r.read_bits(12), Ok(0xF00));
    assert_eq!(r.read_bits(8), Ok(0x80));
    assert!(!r.has_more());
    assert_eq!(r.read_bit(), Err(BitError::UnexpectedEof));
}

#[test]
fn more_than_32_bits_is_refused_without_moving() {
    let data = [0u8; 16];
    let mut r = BitReader::new(&data);
    assert_eq!(r.read_bits(33), Err(BitError::InvalidInput));
    assert_eq!(r.read_bits(64), Err(BitError::InvalidInput));
    assert_eq!(r.read_bits_u32(40), Err(BitError::InvalidInput));
    assert_eq!(r.read_bits_signed(38), Err(BitError::InvalidInput));
    assert_eq!(r.position(), (0, 0));
}

#[test]
fn reading_past_the_end_stops_at_the_end() {
    let data = [0xABu8, 0xCD];
    let mut r = BitReader::new(&data);
    assert_eq!(r.read_bits(4), Ok(0xA));
    assert_eq!(r.read_bits(16), Err(BitError::UnexpectedEof));
    assert_eq!(r.position(), (2, 0));
    let mut r2 = BitReader::new(&data);
    assert_eq!(r2.read_bits_u32(17), Err(BitError::UnexpectedEof));
    assert_eq!(r2.position(), (2, 0));
}

#[test]
fn signed_fields_are_twos_complement() {
    let data = [0b1110_0000u8, 0x7F, 0xFF, 0xFF, 0xFF];
    let mut r = BitReader::new(&data);
    assert_eq!(r.read_bits_signed(3), Ok(-1));
    assert_eq!(r.read_bits_signed(0), Ok(0));
    assert_eq!(r.read_bits_i32(5), Ok(0));
    assert_eq!(r.read_bits_i32(32), Ok(0x7FFF_FFFF));
    let data2 = [0b1000_0000u8];
    let mut r2 = BitReader::new(&data2);
    assert_eq!(r2.read_bits_i32(4), Ok(-8));
}

#[test]
fn skipping_aligning_and_positioning() {
    let data = [0x12u8, 0x34, 0x56];
    let mut r = BitReader::new(&data);
    assert_eq!(r.skip_bits(3), Ok(()));
    r.align_to_byte();
    assert_eq!(r.position(), (1, 0));
    r.align_to_byte();
    assert_eq!(r.position(), (1, 0));
    assert_eq!(r.read_bits(8), Ok(0x34));
    assert_eq!(r.skip_bits(9), Err(BitError::UnexpectedEof));
    assert_eq!(r.position(), (2, 0));
    assert_eq!(r.set_position(0, 4), Ok(()));
    assert_eq!(r.read_bits(8), Ok(0x23));
    assert_eq!(r.set_position(3, 0), Err(BitError::InvalidInput));
    assert_eq!(r.set_position(1, 8), Err(BitError::InvalidInput));
    assert_eq!(r.position(), (1, 4));
}

#[test]
fn both_unsigned_and_both_signed_reads_agree() {
    let data = [0x9Cu8, 0x3F, 0xA5, 0x01, 0xEE];
    for start in 0..16usize {
        for n in [0usize, 1, 5, 8, 13, 24, 30, 32, 33] {
            let mut a = BitReader::new(&data);
            let mut b = BitReader::new(&data);
            assert_eq!(a.skip_bits(start), Ok(()));
            assert_eq!(b.skip_bits(start), Ok(()));
            assert_eq!(a.read_bits(n), b.read_bits_u32(n));
            assert_eq!(a.position(), b.position());
            let mut c = BitReader::new(&data);
            let mut d = BitReader::new(&data);
            c.skip_bits(start).unwrap();
            d.skip_bits(start).unwrap();
            assert_eq!(c.read_bits_signed(n), d.read_bits_i32(n));
            assert_eq!(c.position(), d.position());
        }
    }
}

#[test]
fn signed_32_bit_read_of_a_negative_value() {
    let data = [0x80u8, 0x00, 0x00, 0x01];
    let mut r = BitReader::new(&data);
    assert_eq!(r.read_bits_signed(32), Ok(i32::MIN + 1));
    assert_eq!(r.position(), (4, 0));
    let mut r2 = BitReader::new(&data);
    assert_eq!(r2.read_bits_i32(32), Ok(i32::MIN + 1));
    let all_ones = [0xFFu8; 4];
    assert_eq!(BitReader::new(&all_ones).read_bits_signed(32), Ok(-1));
    assert_eq!(BitReader::new(&[0xFFu8, 0xFF]).read_bits_i32(16), Ok(-1));
    assert_eq!(BitReader::new(&[0x7Fu8, 0xFF]).read_bits_i32(16), Ok(32767));
}
