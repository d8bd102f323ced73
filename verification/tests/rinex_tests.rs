use rtcm2rinex::rinex::header::{GlonassFreqChannel, RinexFileType, RinexSystem};
use rtcm2rinex::rinex::nav::NavSystem;
use rtcm2rinex::rinex::obs::{CycleSlip, RinexObsQuality, RinexObsStatus};

#[test]
fn system_and_file_type_letters() {
    assert_eq!(RinexSystem::GPS.to_string(), "G");
    assert_eq!(RinexSystem::BeiDou.to_string(), "C");
    assert_eq!(RinexSystem::Mixed.code(), 'M');
    assert_eq!(RinexSystem::QZSS.code(), 'J');
    assert_eq!(RinexFileType::Observation.to_string(), "O");
    assert_eq!(RinexFileType::Navigation.code(), 'N');
    assert_eq!(RinexFileType::Clock.to_string(), "C");
}

#[test]
fn observation_file_system_from_selection() {
    assert_eq!(RinexSystem::for_systems(&['R']), RinexSystem::GLONASS);
    assert_eq!(RinexSystem::for_systems(&['I']), RinexSystem::IRNSS);
    assert_eq!(RinexSystem::for_systems(&['X']), RinexSystem::Mixed);
    assert_eq!(RinexSystem::for_systems(&[]), RinexSystem::Mixed);
    assert_eq!(RinexSystem::for_systems(&['G', 'R']), RinexSystem::Mixed);
}

#[test]
fn flag_defaults_and_codes() {
    assert_eq!(RinexObsQuality::default(), RinexObsQuality::Good);
    assert_eq!(RinexObsStatus::default(), RinexObsStatus::Normal);
    assert_eq!(CycleSlip::default(), CycleSlip { detected: false, status: RinexObsStatus::Normal });
    assert_eq!(RinexObsQuality::Smoothed.code(), 5);
    assert_eq!(RinexObsQuality::Unavailable.code(), 9);
    assert_eq!(RinexObsStatus::HalfCycleSlipAndLossOfLock.code(), 3);
    assert!(RinexObsQuality::Weak.is_usable());
    assert!(!RinexObsQuality::Bad.is_usable());
    assert!(!RinexObsQuality::Unavailable.is_usable());
}

#[test]
fn loss_of_lock_indicator() {
    assert_eq!(CycleSlip { detected: false, status: RinexObsStatus::LossOfLock }.lli(), 0);
    assert_eq!(CycleSlip { detected: true, status: RinexObsStatus::LossOfLock }.lli(), 1);
    assert_eq!(CycleSlip { detected: true, status: RinexObsStatus::Unknown }.lli(), 4);
}

#[test]
fn plain_records() {
    let c = GlonassFreqChannel { prn: 3, freq_num: -7 };
    assert_eq!(c.freq_num, -7);
    assert_ne!(NavSystem::GPS, NavSystem::GLONASS);
}
