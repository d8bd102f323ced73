use rtcm2rinex::rtcm::msm::{
    create_msm_message, extract_satellite_ids, extract_signal_ids, get_gnss_type, parse_msm, GnssType, MsmEpoch,
    MsmError, MsmHeader, MsmSatelliteData, MsmSignalData, MsmType,
};
use rtcm2rinex::rtcm::rtcm3::Rtcm3MessageType;
use rtcm2rinex::util::bits::BitError;

#[test]
fn test_extract_satellite_ids() {
    let ids = extract_satellite_ids(0x0000_0000_0000_0003);
    assert_eq!(ids, vec![1, 2]);
}

#[test]
fn test_extract_signal_ids() {
    let ids = extract_signal_ids(0x0000_0005);
    assert_eq!(ids, vec![1, 3]);
}

#[test]
fn test_msm_message_types() {
    // The epoch is 345600 s into week 2000, kept as milliseconds of the week;
    // ranges and cell values are kept as their transmitted integers.
    let header = MsmHeader {
        station_id: 1024,
        gnss_type: GnssType::Gps,
        msm_type: MsmType::FullPseudoranges,
        epoch_time: MsmEpoch::TimeOfWeek { ms: 345_600_000 },
        multiple_message: false,
        issue_of_data_station: 0,
        smooth_indicator: 0,
        smooth_interval: 0,
        satellite_mask: 0x0000000000000003,
        signal_mask: 0x00000005,
        cell_mask: vec![1, 0, 1, 0],
    };
    let satellites = vec![
        MsmSatelliteData { satellite_id: 1, rough_range_ms: 20000 * 1024, phase_range_rate: None },
        MsmSatelliteData { satellite_id: 2, rough_range_ms: 22000 * 1024, phase_range_rate: None },
    ];
    let signals = vec![
        MsmSignalData {
            satellite_index: 0,
            signal_index: 0,
            fine_pseudorange: Some(15),
            fine_phaserange: Some(25),
            lock_time_indicator: Some(3),
            half_cycle_ambiguity: Some(false),
            cnr: Some(45),
        },
        MsmSignalData {
            satellite_index: 1,
            signal_index: 2,
            fine_pseudorange: Some(16),
            fine_phaserange: Some(26),
            lock_time_indicator: Some(4),
            half_cycle_ambiguity: Some(true),
            cnr: Some(46),
        },
    ];

    let mut header_msm4 = header.clone();
    header_msm4.msm_type = MsmType::FullPseudoranges;
    let result_msm4 = create_msm_message(1074, header_msm4, satellites.clone(), signals.clone());
    assert!(result_msm4.is_ok());
    match result_msm4.unwrap() {
        Rtcm3MessageType::Msm4Gps { station_id, .. } => {
            assert_eq!(station_id, 1024);
        },
        _ => panic!("Expected MSM4 GPS message type"),
    }

    let mut header_msm5 = header.clone();
    header_msm5.msm_type = MsmType::FullPseudorangesRates;
    let result_msm5 = create_msm_message(1075, header_msm5, satellites.clone(), signals.clone());
    assert!(result_msm5.is_ok());
    match result_msm5.unwrap() {
        Rtcm3MessageType::Msm5Gps { station_id, .. } => {
            assert_eq!(station_id, 1024);
        },
        _ => panic!("Expected MSM5 GPS message type"),
    }

    let mut header_msm6 = header.clone();
    header_msm6.msm_type = MsmType::FullPhaserangesPseudoranges;
    let result_msm6 = create_msm_message(1076, header_msm6, satellites.clone(), signals.clone());
    assert!(result_msm6.is_ok());
    match result_msm6.unwrap() {
        Rtcm3MessageType::Msm6Gps { station_id, .. } => {
            assert_eq!(station_id, 1024);
        },
        _ => panic!("Expected MSM6 GPS message type"),
    }

    let mut header_msm7 = header.clone();
    header_msm7.msm_type = MsmType::FullPhaserangesPseudorangesRates;
    let result_msm7 = create_msm_message(1077, header_msm7, satellites.clone(), signals.clone());
    assert!(result_msm7.is_ok());
    match result_msm7.unwrap() {
        Rtcm3MessageType::Msm7Gps { station_id, .. } => {
            assert_eq!(station_id, 1024);
        },
        _ => panic!("Expected MSM7 GPS message type"),
    }

    let mut header_glonass = header.clone();
    header_glonass.gnss_type = GnssType::Glonass;
    header_glonass.msm_type = MsmType::FullPseudoranges;
    let result_glonass = create_msm_message(1084, header_glonass, satellites.clone(), signals.clone());
    assert!(result_glonass.is_ok());
    match result_glonass.unwrap() {
        Rtcm3MessageType::Msm4Glonass { station_id, .. } => {
            assert_eq!(station_id, 1024);
        },
        _ => panic!("Expected MSM4 GLONASS message type"),
    }

    let mut header_galileo = header.clone();
    header_galileo.gnss_type = GnssType::Galileo;
    header_galileo.msm_type = MsmType::FullPseudoranges;
    let result_galileo = create_msm_message(1094, header_galileo, satellites.clone(), signals.clone());
    assert!(result_galileo.is_ok());
    match result_galileo.unwrap() {
        Rtcm3MessageType::Msm4Galileo { station_id, .. } => {
            assert_eq!(station_id, 1024);
        },
        _ => panic!("Expected MSM4 Galileo message type"),
    }

    let mut header_beidou = header.clone();
    header_beidou.gnss_type = GnssType::Beidou;
    header_beidou.msm_type = MsmType::FullPseudoranges;
    let result_beidou = create_msm_message(1124, header_beidou, satellites.clone(), signals.clone());
    assert!(result_beidou.is_ok());
    match result_beidou.unwrap() {
        Rtcm3MessageType::Msm4Beidou { station_id, .. } => {
            assert_eq!(station_id, 1024);
        },
        _ => panic!("Expected MSM4 BeiDou message type"),
    }
}

#[test]
fn mask_ids_of_edge_masks() {
    assert_eq!(extract_satellite_ids(0), Vec::<u8>::new());
    assert_eq!(extract_satellite_ids(1u64 << 63), vec![64]);
    assert_eq!(extract_satellite_ids(u64::MAX).len(), 64);
    assert_eq!(extract_signal_ids(0x8000_0001), vec![1, 32]);
    assert_eq!(extract_signal_ids(0), Vec::<u8>::new());
}

#[test]
fn gnss_type_by_message_number() {
    assert_eq!(get_gnss_type(1074), GnssType::Gps);
    assert_eq!(get_gnss_type(1087), GnssType::Glonass);
    assert_eq!(get_gnss_type(1094), GnssType::Galileo);
    assert_eq!(get_gnss_type(1107), GnssType::Sbas);
    assert_eq!(get_gnss_type(1114), GnssType::Qzss);
    assert_eq!(get_gnss_type(1127), GnssType::Beidou);
    assert_eq!(get_gnss_type(1134), GnssType::NavIc);
    assert_eq!(get_gnss_type(1071), GnssType::Other(0));
    assert_eq!(get_gnss_type(1005), GnssType::Other(0));
}

#[test]
fn unsupported_flavour_gives_raw_number() {
    let header = MsmHeader {
        station_id: 1,
        gnss_type: GnssType::Qzss,
        msm_type: MsmType::FullPseudoranges,
        epoch_time: MsmEpoch::TimeOfWeek { ms: 0 },
        multiple_message: false,
        issue_of_data_station: 0,
        smooth_indicator: 0,
        smooth_interval: 0,
        satellite_mask: 0,
        signal_mask: 0,
        cell_mask: vec![],
    };
    let r = create_msm_message(1114, header, vec![], vec![]);
    assert_eq!(r, Ok(Rtcm3MessageType::Raw { msg_type: 1114, payload: vec![0x04, 0x5A] }));
}

/// Packs `(value, width)` fields most significant bit first, zero-padding the
/// last byte.
fn pack_bits(fields: &[(u64, usize)]) -> Vec<u8> {
    let mut bits: Vec<bool> = Vec::new();
    for &(value, width) in fields {
        for i in (0..width).rev() {
            bits.push((value >> i) & 1 == 1);
        }
    }
    let mut out = vec![0u8; (bits.len() + 7) / 8];
    for (i, b) in bits.iter().enumerate() {
        if *b {
            out[i / 8] |= 0x80 >> (i % 8);
        }
    }
    out
}

/// The header fields of an MSM body: message number, station, the given
/// epoch fields, the flag, issue, reserved, clock and smoothing fields (all
/// zero), and the satellite and signal masks with the given numbers set
/// (number 1 is the first bit of each mask).
fn msm_header(msg: u64, station: u64, epoch: &[(u64, usize)], sats: &[u32], sigs: &[u32]) -> Vec<(u64, usize)> {
    let mut fields = vec![(msg, 12), (station, 12)];
    fields.extend_from_slice(epoch);
    fields.extend_from_slice(&[(0, 1), (0, 3), (0, 7), (0, 2), (0, 2), (0, 1), (0, 3)]);
    let sat_mask = sats.iter().fold(0u64, |m, &k| m | (1u64 << (64 - k)));
    let sig_mask = sigs.iter().fold(0u64, |m, &k| m | (1u64 << (32 - k)));
    fields.push((sat_mask, 64));
    fields.push((sig_mask, 32));
    fields
}

#[test]
fn parse_msm_outcomes() {
    assert_eq!(parse_msm(&[0u8; 22], 1071), Err(MsmError::InvalidMessageType(1071)));
    // Empty masks: a header alone (169 bits) is a whole message.
    assert_eq!(
        parse_msm(&[0u8; 22], 1074),
        Ok(Rtcm3MessageType::Msm4Gps {
            station_id: 0,
            epoch_time: MsmEpoch::TimeOfWeek { ms: 0 },
            satellites: vec![],
            signals: vec![],
        })
    );
    // 168 bits: the signal mask is cut short.
    assert_eq!(parse_msm(&[0u8; 21], 1074), Err(MsmError::IoError(BitError::UnexpectedEof)));
    assert_eq!(parse_msm(&[0u8; 2], 1077), Err(MsmError::IoError(BitError::UnexpectedEof)));
}

#[test]
fn beidou_msm4_with_one_satellite() {
    // BeiDou MSM4: satellite C60, signal 2, one cell.
    let mut fields = msm_header(1124, 9, &[(123_456, 30)], &[60], &[2]);
    fields.push((1, 1)); // cell mask
    fields.extend_from_slice(&[(72, 8), (700, 10)]); // rough range
    fields.extend_from_slice(&[(11, 15), (22, 22), (5, 4), (0, 1), (40, 6)]);
    let body = pack_bits(&fields);
    assert_eq!(body.len(), 30);
    assert_eq!(
        parse_msm(&body, 1124),
        Ok(Rtcm3MessageType::Msm4Beidou {
            station_id: 9,
            epoch_time: MsmEpoch::BeidouTimeOfWeek { ms: 123_456 },
            satellites: vec![MsmSatelliteData { satellite_id: 60, rough_range_ms: 72 * 1024 + 700, phase_range_rate: None }],
            signals: vec![MsmSignalData {
                satellite_index: 0,
                signal_index: 0,
                fine_pseudorange: Some(11),
                fine_phaserange: Some(22),
                lock_time_indicator: Some(5),
                half_cycle_ambiguity: Some(false),
                cnr: Some(40),
            }],
        })
    );
}

/// An MSM4 GPS body with satellites 1 and 3, signal 1, and both cells set.
fn msm4_body() -> Vec<u8> {
    let mut fields = msm_header(1074, 1000, &[(345_600_000, 30)], &[1, 3], &[1]);
    fields.extend_from_slice(&[
        (1, 1),
        (1, 1),
        (70, 8), // integer rough ranges
        (255, 8),
        (512, 10), // fractional rough ranges
        (0, 10),
        (5, 15), // fine pseudoranges
        (0x4000, 15),
        (0x3F_FFFF, 22), // fine phase ranges
        (100, 22),
        (12, 4), // lock time indicators
        (3, 4),
        (1, 1), // half-cycle indicators
        (0, 1),
        (45, 6), // CNRs
        (46, 6),
    ]);
    pack_bits(&fields)
}

#[test]
fn msm4_body_is_decoded() {
    let body = msm4_body();
    let expected = Rtcm3MessageType::Msm4Gps {
        station_id: 1000,
        epoch_time: MsmEpoch::TimeOfWeek { ms: 345_600_000 },
        satellites: vec![
            MsmSatelliteData { satellite_id: 1, rough_range_ms: 70 * 1024 + 512, phase_range_rate: None },
            MsmSatelliteData { satellite_id: 3, rough_range_ms: 0, phase_range_rate: None },
        ],
        signals: vec![
            MsmSignalData {
                satellite_index: 0,
                signal_index: 0,
                fine_pseudorange: Some(5),
                fine_phaserange: Some(-1),
                lock_time_indicator: Some(12),
                half_cycle_ambiguity: Some(true),
                cnr: Some(45),
            },
            MsmSignalData {
                satellite_index: 1,
                signal_index: 0,
                fine_pseudorange: None,
                fine_phaserange: Some(100),
                lock_time_indicator: Some(3),
                half_cycle_ambiguity: Some(false),
                cnr: Some(46),
            },
        ],
    };
    assert_eq!(parse_msm(&body, 1074), Ok(expected));
}

#[test]
fn msm4_body_cut_short_is_a_read_failure() {
    let body = msm4_body();
    assert_eq!(parse_msm(&body[..body.len() - 3], 1074), Err(MsmError::IoError(BitError::UnexpectedEof)));
}

#[test]
fn msm5_rates_and_glonass_epoch() {
    let mut fields = msm_header(1085, 44, &[(3, 3), (1000, 27)], &[1], &[2]);
    fields.extend_from_slice(&[
        (1, 1),
        (80, 8),
        (0, 4), // extended information
        (1, 10),
        (0x3FFF, 14), // phase range rate -1
        (7, 15),
        (8, 22),
        (9, 4),
        (0, 1),
        (33, 6),
        (0, 15), // fine phase range rate
    ]);
    let body = pack_bits(&fields);
    let expected = Rtcm3MessageType::Msm5Glonass {
        station_id: 44,
        epoch_time: MsmEpoch::GlonassDayTime { day_of_week: 3, ms: 1000 },
        satellites: vec![MsmSatelliteData { satellite_id: 1, rough_range_ms: 80 * 1024 + 1, phase_range_rate: Some(-1) }],
        signals: vec![MsmSignalData {
            satellite_index: 0,
            signal_index: 0,
            fine_pseudorange: Some(7),
            fine_phaserange: Some(8),
            lock_time_indicator: Some(9),
            half_cycle_ambiguity: Some(false),
            cnr: Some(33),
        }],
    };
    assert_eq!(parse_msm(&body, 1085), Ok(expected));
    // Cut within the trailing fine phase range rate, the body is short.
    assert_eq!(parse_msm(&body[..body.len() - 2], 1085), Err(MsmError::IoError(BitError::UnexpectedEof)));
}

#[test]
fn msm7_high_resolution_fields() {
    let mut fields = msm_header(1077, 3, &[(5000, 30)], &[2], &[1]);
    fields.extend_from_slice(&[
        (1, 1),
        (75, 8),
        (0, 4),
        (3, 10),
        (100, 14),
        (0x80000, 20), // invalid fine pseudorange
        (5, 24),
        (300, 10),
        (1, 1),
        (640, 10),
        (0, 15),
    ]);
    let body = pack_bits(&fields);
    let expected = Rtcm3MessageType::Msm7Gps {
        station_id: 3,
        epoch_time: MsmEpoch::TimeOfWeek { ms: 5000 },
        satellites: vec![MsmSatelliteData { satellite_id: 2, rough_range_ms: 75 * 1024 + 3, phase_range_rate: Some(100) }],
        signals: vec![MsmSignalData {
            satellite_index: 0,
            signal_index: 0,
            fine_pseudorange: None,
            fine_phaserange: Some(5),
            lock_time_indicator: Some(44),
            half_cycle_ambiguity: Some(true),
            cnr: Some(640),
        }],
    };
    assert_eq!(parse_msm(&body, 1077), Ok(expected));
}

#[test]
fn msm_error_descriptions() {
    assert_eq!(MsmError::InvalidSatelliteMask.describe().is_empty(), false);
    assert!(MsmError::IoError(BitError::UnexpectedEof).describe().contains("End of data"));
}
