use rtcm2rinex::rtcm::rtcm2::{Rtcm2Error, Rtcm2Header, Rtcm2MessageBody, Rtcm2MessageType, Rtcm2Parser, Rtcm2Type3, SyncState};

/// A frame of `words` three-byte body words after the two header words,
/// ending in the bit-serial CRC-24Q; the station field doubles as the length.
fn rtcm2_frame(type_num: u8, words: &[[u8; 3]]) -> Vec<u8> {
    let n = words.len();
    let mut f = vec![0x66, (type_num << 2) | ((n >> 8) as u8 & 0x03), (n & 0xFF) as u8, 0x00, 0x00, 0x00];
    for w in words {
        f.extend_from_slice(w);
    }
    let crc = Rtcm2Parser::new().calculate_crc24q(&f);
    f.push((crc >> 16) as u8);
    f.push(((crc >> 8) & 0xFF) as u8);
    f.push((crc & 0xFF) as u8);
    f
}

#[test]
fn new_parser_waits_for_preamble() {
    let p = Rtcm2Parser::new();
    assert_eq!(p.sync_state, SyncState::FindPreamble);
    assert!(p.buffer.is_empty());
    assert_eq!(p.message_length, 0);
}

#[test]
fn bitwise_crc_values() {
    let p = Rtcm2Parser::new();
    assert_eq!(p.calculate_crc24q(&[]), 0);
    assert_eq!(p.calculate_crc24q(&[0x00, 0x13, 0x02, 0x29, 0x80]), 0x38EDF7);
    assert_eq!(p.calculate_crc24q(&[0x35]), 0xDC357A);
}

#[test]
fn type3_frame_is_decoded() {
    // x = 1000, y = -2, z = 16 (units of 0.01 m), then a padding word.
    let f = rtcm2_frame(3, &[[0x00, 0x03, 0xE8], [0xFF, 0xFF, 0xFE], [0x00, 0x00, 0x10], [0, 0, 0]]);
    assert_eq!(f.len(), 21);
    let mut p = Rtcm2Parser::new();
    let mut delivered = Vec::new();
    for (i, b) in f.iter().enumerate() {
        match p.process_byte(*b) {
            Ok(None) => assert!(i + 1 < f.len()),
            Ok(Some(m)) => delivered.push(m),
            Err(e) => panic!("unexpected error {:?}", e),
        }
    }
    assert_eq!(delivered.len(), 1);
    let m = &delivered[0];
    assert_eq!(m.header.message_type, Rtcm2MessageType::Type3);
    assert_eq!(m.header.station_id, 4);
    match &m.body {
        Rtcm2MessageBody::Type3(t) => assert_eq!(*t, Rtcm2Type3 { x: 1000, y: -2, z: 16 }),
        other => panic!("unexpected body {:?}", other),
    }
    assert_eq!(p.sync_state, SyncState::FindPreamble);
}

#[test]
fn corrupted_rtcm2_frame_reports_crc_error() {
    let mut f = rtcm2_frame(9, &[[1, 2, 3]]);
    let last = f.len() - 1;
    f[last] ^= 0x01;
    let mut p = Rtcm2Parser::new();
    let mut errors = Vec::new();
    for b in f {
        if let Err(e) = p.process_byte(b) {
            errors.push(e);
        }
    }
    assert!(matches!(errors.as_slice(), [Rtcm2Error::CrcError]));
    assert_eq!(p.sync_state, SyncState::FindPreamble);
}

#[test]
fn unknown_type_keeps_header() {
    let f = rtcm2_frame(18, &[[7, 7, 7]]);
    let mut p = Rtcm2Parser::new();
    let mut delivered = Vec::new();
    for b in f {
        if let Ok(Some(m)) = p.process_byte(b) {
            delivered.push(m);
        }
    }
    assert_eq!(delivered.len(), 1);
    assert!(matches!(delivered[0].body, Rtcm2MessageBody::Unknown(Rtcm2MessageType::Type18)));
}

#[test]
fn header_fields() {
    let mut p = Rtcm2Parser::new();
    p.buffer = vec![0x66, (1 << 2) | 0x01, 0x02, 0b1010_1010, 0b1011_0110, 0b1100_1101, 0, 0, 0];
    let h = p.parse_header().unwrap();
    assert_eq!(
        h,
        Rtcm2Header {
            message_type: Rtcm2MessageType::Type1,
            station_id: 0x102,
            z_count: 0b1010_1010_1011_0,
            sequence_number: 0b101,
            length: 0b11001,
            station_health: 0b101,
        }
    );
}

#[test]
fn type_numbers_name_message_types() {
    assert_eq!(Rtcm2MessageType::from(1u16), Rtcm2MessageType::Type1);
    assert_eq!(Rtcm2MessageType::from(19u16), Rtcm2MessageType::Type19);
    assert_eq!(Rtcm2MessageType::from(31u16), Rtcm2MessageType::Other(31));
}

#[test]
fn header_of_a_short_buffer_is_a_read_failure() {
    let mut p = Rtcm2Parser::new();
    p.buffer = vec![0x66, 0x04, 0x01, 0xFF, 0xFF];
    assert!(matches!(p.parse_header(), Err(Rtcm2Error::IoError(rtcm2rinex::util::bits::BitError::UnexpectedEof))));
    p.buffer = vec![0x66, 0x04, 0x01];
    assert!(matches!(p.parse_header(), Err(Rtcm2Error::IoError(rtcm2rinex::util::bits::BitError::UnexpectedEof))));
}

fn pack_bits(fields: &[(u64, usize)]) -> Vec<u8> {
    let mut bits: Vec<bool> = Vec::new();
    for &(value, width) in fields {
        for i in (0..width).rev() {
            bits.push((value >> i) & 1 == 1);
        }
    }
    let mut out = vec![0u8; (bits.len() + 7) / 8];
    for (i, b) in bits.iter().enumerate() {
        if *b {
            out[i / 8] |= 0x80 >> (i % 8);
        }
    }
    out
}

#[test]
fn type1_corrections_are_decoded() {
    let mut body = pack_bits(&[
        (1, 1),
        (2, 2),
        (5, 5),
        ((-100i16) as u16 as u64, 16),
        (3, 8),
        (0, 2),
        (17, 5),
        (1234, 16),
        ((-1i8) as u8 as u64, 8),
    ]);
    while body.len() % 3 != 0 {
        body.push(0);
    }
    let words: Vec<[u8; 3]> = body.chunks(3).map(|c| [c[0], c[1], c[2]]).collect();
    let f = rtcm2_frame(1, &words);
    assert_eq!(f.len(), 18);
    let mut p = Rtcm2Parser::new();
    let mut delivered = Vec::new();
    for b in f {
        if let Ok(Some(m)) = p.process_byte(b) {
            delivered.push(m);
        }
    }
    assert_eq!(delivered.len(), 1);
    match &delivered[0].body {
        Rtcm2MessageBody::Type1(t) => {
            assert_eq!(t.scale_factor, 1);
            assert_eq!(t.udre, vec![2, 0]);
            assert_eq!(t.satellite_id, vec![5, 17]);
            assert_eq!(t.prc, vec![-100, 1234]);
            assert_eq!(t.rrc, vec![3, -1]);
        },
        other => panic!("unexpected body {:?}", other),
    }
}

#[test]
fn empty_rtcm2_body_completes_after_nine_bytes() {
    // Length 0: six header bytes and three CRC bytes.
    let f = rtcm2_frame(6, &[]);
    assert_eq!(f.len(), 9);
    let mut p = Rtcm2Parser::new();
    for (i, b) in f.iter().enumerate() {
        let r = p.process_byte(*b);
        if i + 1 < f.len() {
            assert!(matches!(r, Ok(None)), "byte {} gave {:?}", i, r);
        } else {
            assert!(matches!(r, Ok(Some(_))), "last byte gave {:?}", r);
        }
    }
}
