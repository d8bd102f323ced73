use rtcm2rinex::rtcm::rtcm3::{rtcm3_crc, Rtcm3Error, Rtcm3MessageType};
use rtcm2rinex::rtcm::{RtcmContext, RtcmError, RtcmMessageType};
use rtcm2rinex::{init_rtcm, process_rtcm_bytes, process_rtcm_data, Error};

fn pack_bits(fields: &[(u64, usize)]) -> Vec<u8> {
    let mut bits: Vec<bool> = Vec::new();
    for &(value, width) in fields {
        for i in (0..width).rev() {
            bits.push((value >> i) & 1 == 1);
        }
    }
    let mut out = vec![0u8; (bits.len() + 7) / 8];
    for (i, b) in bits.iter().enumerate() {
        if *b {
            out[i / 8] |= 0x80 >> (i % 8);
        }
    }
    out
}

fn frame(body: &[u8]) -> Vec<u8> {
    let mut f = vec![0xD3, ((body.len() >> 8) & 0x03) as u8, (body.len() & 0xFF) as u8];
    f.extend_from_slice(body);
    let crc = rtcm3_crc(&f, f.len());
    f.push((crc >> 16) as u8);
    f.push(((crc >> 8) & 0xFF) as u8);
    f.push((crc & 0xFF) as u8);
    f
}

fn gps_ephemeris_frame(prn: u64) -> Vec<u8> {
    let mut fields: Vec<(u64, usize)> = vec![(1019, 12), (prn, 6), (100, 10), (0, 4), (0, 2), (0, 14), (1, 8), (10, 16)];
    fields.extend_from_slice(&[(0, 8), (0, 16), (0, 22), (0, 10), (0, 16), (0, 16), (0, 32), (0, 16)]);
    fields.extend_from_slice(&[(0, 32), (0, 16), (0, 32), (0, 16), (0, 16), (0, 32), (0, 16), (0, 32)]);
    fields.extend_from_slice(&[(0, 16), (0, 32), (0, 24), (0, 8), (0, 6), (0, 1), (0, 1)]);
    frame(&pack_bits(&fields))
}

fn glonass_ephemeris_frame(slot: u64) -> Vec<u8> {
    let mut fields: Vec<(u64, usize)> = vec![(1020, 12), (slot, 6)];
    // The rest of the 360-bit message is zero.
    fields.push((0, 360 - 18));
    frame(&pack_bits(&fields))
}

fn text_frame(station: u64, text: &str) -> Vec<u8> {
    let mut fields: Vec<(u64, usize)> = vec![(1029, 12), (station, 12), (0, 16), (0, 17), (text.len() as u64, 7)];
    for c in text.bytes() {
        fields.push((c as u64, 8));
    }
    frame(&pack_bits(&fields))
}

fn feed(ctx: &mut RtcmContext, bytes: &[u8]) -> Vec<Result<Option<RtcmMessageType>, RtcmError>> {
    let mut out = Vec::new();
    for &b in bytes {
        let r = ctx.process_byte(b);
        if !matches!(r, Ok(None)) {
            out.push(r);
        }
    }
    out
}

#[test]
fn it_works() {
    assert!(true);
}

#[test]
fn new_context_is_empty() {
    let ctx = init_rtcm().unwrap();
    assert_eq!(ctx.get_gps_nav_count(), 0);
    assert_eq!(ctx.get_glonass_nav_count(), 0);
    assert_eq!(ctx.station_id, 0);
    assert!(ctx.station_pos.is_none());
    assert!(ctx.last_message_type.is_none());
}

#[test]
fn ephemerides_are_filed_and_counted() {
    let mut ctx = RtcmContext::new().unwrap();
    let mut stream = Vec::new();
    stream.extend(gps_ephemeris_frame(7));
    stream.extend(gps_ephemeris_frame(7));
    stream.extend(gps_ephemeris_frame(9));
    stream.extend(glonass_ephemeris_frame(3));
    let out = feed(&mut ctx, &stream);
    assert_eq!(out.len(), 4);
    assert_eq!(ctx.get_gps_nav_count(), 3);
    assert_eq!(ctx.get_glonass_nav_count(), 1);
    assert_eq!(ctx.gps_nav_data[&7].len(), 2);
    assert_eq!(ctx.gps_nav_data[&9].len(), 1);
    assert!(matches!(ctx.gps_nav_data[&9][0], Rtcm3MessageType::GpsEphemeris { prn: 9, .. }));
    assert!(matches!(ctx.glo_nav_data[&3][0], Rtcm3MessageType::GlonassEphemeris { slot: 3, .. }));
    assert!(matches!(
        ctx.last_message_type,
        Some(RtcmMessageType::Rtcm3(Rtcm3MessageType::GlonassEphemeris { slot: 3, .. }))
    ));

    ctx.clear();
    assert_eq!(ctx.get_gps_nav_count(), 0);
    assert_eq!(ctx.get_glonass_nav_count(), 0);
    assert!(ctx.last_message_type.is_none());
}

#[test]
fn station_description_is_kept() {
    let mut fields: Vec<(u64, usize)> = vec![(1033, 12), (77, 12)];
    for text in ["TRM59800.00", "12345", "NETR9", "5.22", "R-1"] {
        fields.push((text.len() as u64, 8));
        for c in text.bytes() {
            fields.push((c as u64, 8));
        }
    }
    let mut ctx = RtcmContext::new().unwrap();
    let out = feed(&mut ctx, &frame(&pack_bits(&fields)));
    assert_eq!(out.len(), 1);
    assert_eq!(ctx.station_id, 77);
    assert_eq!(ctx.antenna_descriptor.as_deref(), Some("TRM59800.00"));
    assert_eq!(ctx.antenna_serial.as_deref(), Some("12345"));
    assert_eq!(ctx.receiver_type.as_deref(), Some("NETR9"));
    assert_eq!(ctx.firmware_version.as_deref(), Some("5.22"));
    assert_eq!(ctx.receiver_serial.as_deref(), Some("R-1"));

    // A 1008 message replaces the antenna descriptor and serial number.
    let mut f1008: Vec<(u64, usize)> = vec![(1008, 12), (78, 12), (3, 8)];
    for c in "ABC".bytes() {
        f1008.push((c as u64, 8));
    }
    f1008.push((0, 8));
    f1008.push((2, 8));
    for c in "XY".bytes() {
        f1008.push((c as u64, 8));
    }
    feed(&mut ctx, &frame(&pack_bits(&f1008)));
    assert_eq!(ctx.station_id, 78);
    assert_eq!(ctx.antenna_descriptor.as_deref(), Some("ABC"));
    assert_eq!(ctx.antenna_serial.as_deref(), Some("XY"));
    assert_eq!(ctx.receiver_type.as_deref(), Some("NETR9"));
}

#[test]
fn other_messages_only_set_station() {
    let mut ctx = RtcmContext::new().unwrap();
    let out = feed(&mut ctx, &text_frame(321, "OK"));
    assert_eq!(out.len(), 1);
    match &out[0] {
        Ok(Some(RtcmMessageType::Rtcm3(Rtcm3MessageType::TextMessage { message, .. }))) => assert_eq!(message, "OK"),
        other => panic!("unexpected {:?}", other),
    }
    // A text message carries a station number, but the context keeps it only
    // for station, ephemeris and observation messages.
    assert_eq!(ctx.station_id, 0);
    assert_eq!(ctx.get_gps_nav_count(), 0);
}

#[test]
fn rtcm3_errors_are_reported() {
    let mut f = text_frame(1, "A");
    let last = f.len() - 1;
    f[last] ^= 0xFF;
    let mut ctx = RtcmContext::new().unwrap();
    let out = feed(&mut ctx, &f);
    assert!(matches!(out.as_slice(), [Err(RtcmError::Rtcm3Error(Rtcm3Error::CrcError))]));

    let mut ctx2 = init_rtcm().unwrap();
    let mut errors = 0;
    for b in f {
        match process_rtcm_data(&mut ctx2, b) {
            Err(Error::Rtcm(RtcmError::Rtcm3Error(Rtcm3Error::CrcError))) => errors += 1,
            Ok(None) => {},
            other => panic!("unexpected {:?}", other),
        }
    }
    assert_eq!(errors, 1);
}

#[test]
fn byte_slices_are_processed_until_an_error() {
    let mut ctx = init_rtcm().unwrap();
    let mut stream = vec![0x00, 0x01];
    stream.extend(gps_ephemeris_frame(1));
    stream.extend(text_frame(2, "HELLO"));
    stream.extend(glonass_ephemeris_frame(4));
    let msgs = process_rtcm_bytes(&mut ctx, &stream).unwrap();
    assert_eq!(msgs.len(), 3);
    assert!(matches!(msgs[0], RtcmMessageType::Rtcm3(Rtcm3MessageType::GpsEphemeris { prn: 1, .. })));
    assert!(matches!(&msgs[1], RtcmMessageType::Rtcm3(Rtcm3MessageType::TextMessage { station_id: 2, .. })));
    assert!(matches!(msgs[2], RtcmMessageType::Rtcm3(Rtcm3MessageType::GlonassEphemeris { slot: 4, .. })));
    assert_eq!(ctx.get_gps_nav_count(), 1);
    assert_eq!(ctx.get_glonass_nav_count(), 1);
    assert!(process_rtcm_bytes(&mut ctx, &[]).unwrap().is_empty());

    let mut bad = gps_ephemeris_frame(2);
    let last = bad.len() - 1;
    bad[last] ^= 0x10;
    bad.extend(gps_ephemeris_frame(3));
    let r = process_rtcm_bytes(&mut ctx, &bad);
    assert!(matches!(r, Err(Error::Rtcm(RtcmError::Rtcm3Error(Rtcm3Error::CrcError)))));
    // Processing stopped at the bad frame.
    assert_eq!(ctx.get_gps_nav_count(), 1);
}

#[test]
fn station_coordinates_set_the_station_position() {
    let body = pack_bits(&[(1005, 12), (9, 12), (0, 6), (1, 1), (0, 4), (0, 1), (10, 38), (20, 38), (30, 38), (5, 16)]);
    let mut ctx = RtcmContext::new().unwrap();
    let out = feed(&mut ctx, &frame(&body));
    assert_eq!(out.len(), 1);
    assert!(matches!(
        out[0],
        Ok(Some(RtcmMessageType::Rtcm3(Rtcm3MessageType::ReferenceStationCoordinates { station_id: 9, .. })))
    ));
    assert_eq!(ctx.station_id, 9);
    assert_eq!(ctx.station_pos, Some((10, 20, 30)));
    assert_eq!(ctx.antenna_height, Some(5));
}

#[test]
fn msm_frames_set_the_station_number() {
    let body = pack_bits(&[(1124, 12), (77, 12), (500, 30), (0, 19), (0, 64), (0, 32)]);
    let mut ctx = RtcmContext::new().unwrap();
    let out = feed(&mut ctx, &frame(&body));
    assert_eq!(out.len(), 1);
    assert!(matches!(
        out[0],
        Ok(Some(RtcmMessageType::Rtcm3(Rtcm3MessageType::Msm4Beidou { station_id: 77, .. })))
    ));
    assert_eq!(ctx.station_id, 77);
}
