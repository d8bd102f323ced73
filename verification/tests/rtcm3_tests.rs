use rtcm2rinex::rtcm::rtcm2::Rtcm2Parser;
use rtcm2rinex::rtcm::rtcm3::{check_crc, rtcm3_crc, Rtcm3Error, Rtcm3MessageType, Rtcm3Parser, Rtcm3ParserState};
use rtcm2rinex::util::bits::BitError;
use rtcm2rinex::rtcm::msm::MsmEpoch;

/// Packs `(value, width)` fields most significant bit first, zero-padding the
/// last byte.
fn pack_bits(fields: &[(u64, usize)]) -> Vec<u8> {
    let mut bits: Vec<bool> = Vec::new();
    for &(value, width) in fields {
        for i in (0..width).rev() {
            bits.push((value >> i) & 1 == 1);
        }
    }
    let mut out = vec![0u8; (bits.len() + 7) / 8];
    for (i, b) in bits.iter().enumerate() {
        if *b {
            out[i / 8] |= 0x80 >> (i % 8);
        }
    }
    out
}

/// A whole frame around `body`: preamble, length, body and table CRC.
fn frame(body: &[u8]) -> Vec<u8> {
    let mut f = vec![0xD3, ((body.len() >> 8) & 0x03) as u8, (body.len() & 0xFF) as u8];
    f.extend_from_slice(body);
    let crc = rtcm3_crc(&f, f.len());
    f.push((crc >> 16) as u8);
    f.push(((crc >> 8) & 0xFF) as u8);
    f.push((crc & 0xFF) as u8);
    f
}

/// Feeds all bytes and collects every result that is not `Ok(None)`.
fn feed(parser: &mut Rtcm3Parser, bytes: &[u8]) -> Vec<Result<Option<Rtcm3MessageType>, Rtcm3Error>> {
    let mut out = Vec::new();
    for &b in bytes {
        let r = parser.process_byte(b);
        if r != Ok(None) {
            out.push(r);
        }
    }
    out
}

#[test]
fn test_rtcm3_crc() {
    let data = [0x00, 0x13, 0x02, 0x29, 0x80];
    let crc = rtcm3_crc(&data, data.len());
    let mut test_data = Vec::new();
    test_data.extend_from_slice(&data);
    test_data.push((crc >> 16) as u8);
    test_data.push(((crc >> 8) & 0xFF) as u8);
    test_data.push((crc & 0xFF) as u8);
    assert!(check_crc(&test_data), "CRC check failed for test case 1");

    let data2 = [0x00, 0x01, 0x42, 0x7F, 0x00];
    let _expected_crc2: u32 = 0x1C8135;
    let _crc2 = rtcm3_crc(&data2, data2.len());
}

#[test]
fn test_rtcm3_parser_sync() {
    let mut parser = Rtcm3Parser::new();
    let data = [0xD3, 0x00, 0x01];

    let result = parser.process_byte(data[0]);
    assert_eq!(result, Ok(None));
    assert_eq!(parser.state, Rtcm3ParserState::ReadLength);

    let result = parser.process_byte(data[1]);
    assert_eq!(result, Ok(None));

    let result = parser.process_byte(data[2]);
    assert_eq!(result, Ok(None));
    assert_eq!(parser.state, Rtcm3ParserState::ReadMessage);
    assert_eq!(parser.current_length, 1);
}

#[test]
fn test_decode_message_type() {
    let mut parser = Rtcm3Parser::new();
    parser.buffer = vec![0xD3, 0x00, 0x01, 0x42, 0x7F, 0x00, 0x00, 0x00, 0x00];
    parser.current_type = (((parser.buffer[3] as u16) << 4) | ((parser.buffer[4] as u16) >> 4)) & 0xFFF;
    assert_eq!(parser.current_type, 1063);
}

#[test]
fn crc_values_of_known_inputs() {
    assert_eq!(rtcm3_crc(&[0x00, 0x13, 0x02, 0x29, 0x80], 5), 0x38EDF7);
    assert_eq!(rtcm3_crc(&[0x00, 0x01, 0x42, 0x7F, 0x00], 5), 0x24E964);
    assert_eq!(rtcm3_crc(&[0x01, 0x02, 0x03], 3), 0x428EB1);
    assert_eq!(rtcm3_crc(&[], 0), 0);
    // Only a prefix is covered.
    assert_eq!(rtcm3_crc(&[0x01, 0x02, 0x03, 0x99], 3), 0x428EB1);
}

#[test]
fn table_crc_agrees_with_bitwise_crc() {
    let table = rtcm3_crc(&[0x35], 1);
    let bitwise = Rtcm2Parser::new().calculate_crc24q(&[0x35]);
    assert_eq!(table, 0xDC357A);
    assert_eq!(bitwise, 0xDC357A);
    assert_eq!(rtcm3_crc(&[0x01], 1), 0x864CFB);
    assert_eq!(Rtcm2Parser::new().calculate_crc24q(&[0x01, 0x02, 0x03]), 0x428EB1);
}

#[test]
fn crc_check_rejects_short_and_wrong_frames() {
    assert!(!check_crc(&[0xD3, 0x00, 0x00, 0x00, 0x00]));
    let mut f = frame(&[0x3E, 0xD0]);
    assert!(check_crc(&f));
    let last = f.len() - 1;
    f[last] ^= 1;
    assert!(!check_crc(&f));
}

#[test]
fn bytes_before_preamble_are_ignored() {
    let mut parser = Rtcm3Parser::new();
    for b in [0x00u8, 0x12, 0xFF, 0x66] {
        assert_eq!(parser.process_byte(b), Ok(None));
        assert_eq!(parser.state, Rtcm3ParserState::FindPreamble);
    }
    assert!(parser.buffer.is_empty());
}

#[test]
fn unknown_message_is_delivered_raw() {
    // Message number 1230, station 7.
    let body = pack_bits(&[(1230, 12), (7, 12), (0, 8)]);
    let f = frame(&body);
    let mut parser = Rtcm3Parser::new();
    let out = feed(&mut parser, &f);
    assert_eq!(out, vec![Ok(Some(Rtcm3MessageType::Raw { msg_type: 1230, payload: f.clone() }))]);
    assert_eq!(parser.current_type, 1230);
    assert_eq!(parser.state, Rtcm3ParserState::FindPreamble);
}

#[test]
fn corrupted_frame_reports_crc_error() {
    let body = pack_bits(&[(1230, 12), (7, 12)]);
    let mut f = frame(&body);
    let last = f.len() - 1;
    f[last] ^= 0x80;
    let mut parser = Rtcm3Parser::new();
    let out = feed(&mut parser, &f);
    assert_eq!(out, vec![Err(Rtcm3Error::CrcError)]);
    assert_eq!(parser.state, Rtcm3ParserState::FindPreamble);
}

#[test]
fn text_message_is_decoded() {
    let body = pack_bits(&[
        (1029, 12),
        (42, 12),
        (59000, 16),
        (3600, 17),
        (2, 7),
        (b'H' as u64, 8),
        (b'I' as u64, 8),
    ]);
    let mut parser = Rtcm3Parser::new();
    let out = feed(&mut parser, &frame(&body));
    assert_eq!(
        out,
        vec![Ok(Some(Rtcm3MessageType::TextMessage {
            station_id: 42,
            modified_julian_day: 59000,
            seconds_of_day: 3600,
            n_chars: 2,
            message: "HI".to_string(),
        }))]
    );
}

#[test]
fn receiver_antenna_description_is_decoded() {
    let mut fields: Vec<(u64, usize)> = vec![(1033, 12), (5, 12)];
    for text in ["ANT", "S1", "RCV", "1.0", "R9"] {
        fields.push((text.len() as u64, 8));
        for c in text.bytes() {
            fields.push((c as u64, 8));
        }
    }
    let mut parser = Rtcm3Parser::new();
    let out = feed(&mut parser, &frame(&pack_bits(&fields)));
    assert_eq!(
        out,
        vec![Ok(Some(Rtcm3MessageType::ReceiverAntennaDescription {
            station_id: 5,
            antenna_descriptor: "ANT".to_string(),
            antenna_serial: "S1".to_string(),
            receiver_type: "RCV".to_string(),
            firmware_version: "1.0".to_string(),
            receiver_serial: "R9".to_string(),
        }))]
    );
}

#[test]
fn antenna_descriptor_count_zero_is_refused() {
    let body = pack_bits(&[(1007, 12), (5, 12), (0, 8), (0, 8)]);
    let mut parser = Rtcm3Parser::new();
    let out = feed(&mut parser, &frame(&body));
    assert_eq!(out, vec![Err(Rtcm3Error::ParseError("Invalid antenna descriptor count: 0".to_string()))]);
    // A frame that fails to decode leaves the parser reading.
    assert_eq!(parser.state, Rtcm3ParserState::ReadMessage);
}

#[test]
fn station_coordinates_decode_38_bit_fields() {
    let x_minus_one = (1u64 << 38) - 1;
    let z_most_negative = 1u64 << 37;
    let body = pack_bits(&[
        (1005, 12),
        (5, 12),
        (3, 6),  // ITRF year
        (0, 1),  // no antenna height
        (0, 4),
        (0, 1),  // single receiver
        (x_minus_one, 38),
        (12_345_678_901, 38),
        (z_most_negative, 38),
    ]);
    let mut parser = Rtcm3Parser::new();
    let out = feed(&mut parser, &frame(&body));
    assert_eq!(
        out,
        vec![Ok(Some(Rtcm3MessageType::ReferenceStationCoordinates {
            station_id: 5,
            itrf_year: 3,
            has_antenna_height: false,
            x: -1,
            y: 12_345_678_901,
            z: -(1i64 << 37),
            antenna_height: None,
        }))]
    );
}

#[test]
fn station_coordinates_with_antenna_height() {
    let body = pack_bits(&[
        (1006, 12),
        (7, 12),
        (0, 6),
        (1, 1),  // antenna height follows
        (0, 4),
        (0, 1),
        (1000, 38),
        (2000, 38),
        (3000, 38),
        (1234, 16),
    ]);
    let mut parser = Rtcm3Parser::new();
    let out = feed(&mut parser, &frame(&body));
    assert_eq!(
        out,
        vec![Ok(Some(Rtcm3MessageType::ReferenceStationCoordinates {
            station_id: 7,
            itrf_year: 0,
            has_antenna_height: true,
            x: 1000,
            y: 2000,
            z: 3000,
            antenna_height: Some(1234),
        }))]
    );
}

#[test]
fn station_coordinates_short_frame_fails() {
    let body = pack_bits(&[(1005, 12), (5, 12), (0, 40)]);
    let mut parser = Rtcm3Parser::new();
    let out = feed(&mut parser, &frame(&body));
    assert_eq!(out, vec![Err(Rtcm3Error::IoError(BitError::UnexpectedEof))]);
}

#[test]
fn msm_frames_are_decoded() {
    // An MSM7 GPS body with empty masks.
    let body = pack_bits(&[(1077, 12), (5, 12), (1000, 30), (0, 19), (0, 64), (0, 32)]);
    let mut parser = Rtcm3Parser::new();
    let out = feed(&mut parser, &frame(&body));
    assert_eq!(
        out,
        vec![Ok(Some(Rtcm3MessageType::Msm7Gps {
            station_id: 5,
            epoch_time: MsmEpoch::TimeOfWeek { ms: 1000 },
            satellites: vec![],
            signals: vec![],
        }))]
    );
}

#[test]
fn msm_frames_report_a_short_body() {
    // The satellite mask names one satellite and the signal mask one signal,
    // but the body ends after the masks.
    let body = pack_bits(&[(1077, 12), (5, 12), (1000, 30), (0, 19), (1u64 << 63, 64), (1u64 << 31, 32)]);
    let mut parser = Rtcm3Parser::new();
    let out = feed(&mut parser, &frame(&body));
    assert_eq!(out, vec![Err(Rtcm3Error::ParseError("MSM解析错误: I/O 错误: End of data".to_string()))]);
}

#[test]
fn gps_ephemeris_is_decoded() {
    let mut fields: Vec<(u64, usize)> = vec![
        (1019, 12),
        (12, 6),   // prn
        (2100, 10), // week (10 bits: 2100 % 1024)
        (3, 4),    // sva
        (1, 2),    // code on L2
        (5, 14),   // idot
        (77, 8),   // iode
        (100, 16), // toc / 16
    ];
    fields.extend_from_slice(&[(0, 8), (0, 16), (0, 22), (300, 10)]); // af2, af1, af0, iodc
    fields.extend_from_slice(&[(0, 16), (0, 16), (0, 32), (0, 16)]); // crs, deln, m0, cuc
    fields.extend_from_slice(&[(123456, 32), (0, 16), (2702, 32), (200, 16)]); // e, cus, sqrt_a, toe / 16
    fields.extend_from_slice(&[(0, 16), (0, 32), (0, 16), (0, 32), (0, 16), (0, 32), (0, 24), (0, 8)]);
    fields.extend_from_slice(&[(0, 6), (1, 1), (0, 1)]); // svh, flag, fit interval
    let body = pack_bits(&fields);
    assert_eq!(body.len(), 61);
    let mut parser = Rtcm3Parser::new();
    let out = feed(&mut parser, &frame(&body));
    assert_eq!(
        out,
        vec![Ok(Some(Rtcm3MessageType::GpsEphemeris {
            station_id: 0,
            prn: 12,
            week: (2100 % 1024) as u16,
            sva: 3,
            code_l2: 1,
            idot: 5,
            iode: 77,
            toc: 1600,
            af2: 0,
            af1: 0,
            af0: 0,
            iodc: 300,
            crs: 0,
            deln: 0,
            m0: 0,
            cuc: 0,
            e: 123456,
            cus: 0,
            sqrt_a: 2702,
            toe: 3200,
            cic: 0,
            omega0: 0,
            cis: 0,
            i0: 0,
            crc: 0,
            omega: 0,
            omegad: 0,
            tgd: 0,
            svh: 0,
            flag: 1,
        }))]
    );
}

#[test]
fn gps_ephemeris_signed_fields_are_twos_complement() {
    let mut fields: Vec<(u64, usize)> = vec![
        (1019, 12),
        (1, 6),
        (0, 10),
        (0, 4),
        (0, 2),
        (0x3FFF, 14), // idot: all ones
        (0, 8),
        (0, 16),
    ];
    fields.extend_from_slice(&[(0x80, 8), (0xFFFF, 16), ((1 << 22) - 3, 22), (0, 10)]); // af2, af1, af0, iodc
    fields.extend_from_slice(&[(0x8000, 16), (0, 16), (0x8000_0000, 32), (0, 16)]); // crs, deln, m0, cuc
    fields.extend_from_slice(&[(0, 32), (0, 16), (0, 32), (0, 16)]);
    fields.extend_from_slice(&[(0, 16), (0, 32), (0, 16), (0, 32), (0, 16), (0, 32), (0xFF_FFFF, 24), (0xFF, 8)]);
    fields.extend_from_slice(&[(0, 6), (0, 1), (0, 1)]);
    let body = pack_bits(&fields);
    let mut parser = Rtcm3Parser::new();
    let out = feed(&mut parser, &frame(&body));
    match &out[..] {
        [Ok(Some(Rtcm3MessageType::GpsEphemeris { idot, af2, af1, af0, crs, m0, omegad, tgd, .. }))] => {
            assert_eq!(*idot, -1);
            assert_eq!(*af2, -128);
            assert_eq!(*af1, -1);
            assert_eq!(*af0, -3);
            assert_eq!(*crs, -32768);
            assert_eq!(*m0, i32::MIN);
            assert_eq!(*omegad, -1);
            assert_eq!(*tgd, -1);
        },
        other => panic!("unexpected {:?}", other),
    }
}

#[test]
fn error_equality_ignores_read_failure_cause() {
    assert_eq!(Rtcm3Error::IoError(BitError::UnexpectedEof), Rtcm3Error::IoError(BitError::InvalidInput));
    assert_eq!(Rtcm3Error::ParseError("a".to_string()), Rtcm3Error::ParseError("a".to_string()));
    assert_ne!(Rtcm3Error::ParseError("a".to_string()), Rtcm3Error::ParseError("b".to_string()));
    assert_ne!(Rtcm3Error::CrcError, Rtcm3Error::UnsupportedMessageType(1));
    assert_eq!(Rtcm3Error::UnsupportedMessageType(7), Rtcm3Error::UnsupportedMessageType(7));
    assert_ne!(Rtcm3Error::InvalidLength("x".to_string()), Rtcm3Error::InvalidHeader("x".to_string()));
}
