use rtcm2rinex::gnss::satsys::{
    BeidouProcessor, BeidouSignal, GalileoProcessor, GalileoSignal, GpsProcessor, GpsSignal, IrnssProcessor,
    IrnssSignal, QzssProcessor, QzssSignal, SatelliteSignal,
};
use rtcm2rinex::gnss::{GnssSystem, SatelliteId};

#[test]
fn test_signal_types() {
    let gps_l1ca = SatelliteSignal::Gps(GpsSignal::L1CA);
    let beidou_b1i = SatelliteSignal::Beidou(BeidouSignal::B1I);
    let galileo_e1b = SatelliteSignal::Galileo(GalileoSignal::E1B);

    match gps_l1ca {
        SatelliteSignal::Gps(GpsSignal::L1CA) => assert!(true),
        _ => assert!(false),
    }

    match beidou_b1i {
        SatelliteSignal::Beidou(BeidouSignal::B1I) => assert!(true),
        _ => assert!(false),
    }

    match galileo_e1b {
        SatelliteSignal::Galileo(GalileoSignal::E1B) => assert!(true),
        _ => assert!(false),
    }
}

#[test]
fn supported_signal_sets() {
    assert_eq!(GpsProcessor.get_supported_signals().len(), 5);
    assert_eq!(GpsProcessor.get_supported_signals()[0], SatelliteSignal::Gps(GpsSignal::L1CA));
    assert_eq!(BeidouProcessor.get_supported_signals().len(), 4);
    assert_eq!(GalileoProcessor.get_supported_signals()[3], SatelliteSignal::Galileo(GalileoSignal::E5bI));
    assert_eq!(QzssProcessor.get_supported_signals()[1], SatelliteSignal::Qzss(QzssSignal::L1C));
    assert_eq!(
        IrnssProcessor.get_supported_signals(),
        vec![SatelliteSignal::Irnss(IrnssSignal::L5), SatelliteSignal::Irnss(IrnssSignal::S)]
    );
}

#[test]
fn system_letters_and_names() {
    for c in ['G', 'R', 'E', 'J', 'C', 'S', 'I'] {
        let s = GnssSystem::from_char(c).unwrap();
        assert_eq!(s.to_char(), c);
    }
    assert_eq!(GnssSystem::from_char('X'), None);
    assert_eq!(GnssSystem::from_char('g'), None);
    assert_eq!(GnssSystem::Gps.name(), "GPS");
    assert_eq!(GnssSystem::NavIc.name(), "NavIC/IRNSS");
    assert_eq!(GnssSystem::from_char('C'), Some(GnssSystem::BeiDou));
}

#[test]
fn satellite_text_round_trip() {
    for (system, prn) in [(GnssSystem::Gps, 5u8), (GnssSystem::Glonass, 12), (GnssSystem::BeiDou, 0), (GnssSystem::Sbas, 255)] {
        let id = SatelliteId::new(system, prn);
        let text = id.to_string();
        assert_eq!(SatelliteId::from_str(&text), Some(id));
    }
    assert_eq!(SatelliteId::new(GnssSystem::Gps, 5).to_string(), "G05");
    assert_eq!(SatelliteId::new(GnssSystem::Galileo, 123).to_string(), "E123");
}

#[test]
fn satellite_parsing_edge_cases() {
    assert_eq!(SatelliteId::from_str("R12"), Some(SatelliteId::new(GnssSystem::Glonass, 12)));
    assert_eq!(SatelliteId::from_str("G+7"), Some(SatelliteId::new(GnssSystem::Gps, 7)));
    assert_eq!(SatelliteId::from_str("G"), None);
    assert_eq!(SatelliteId::from_str(""), None);
    assert_eq!(SatelliteId::from_str("X01"), None);
    assert_eq!(SatelliteId::from_str("G256"), None);
    assert_eq!(SatelliteId::from_str("G1a"), None);
    assert_eq!(SatelliteId::from_str("G+"), None);
}
