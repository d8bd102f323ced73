use rtcm2rinex::gnss::{GnssSystem, SatelliteId};
use rtcm2rinex::rinex::obs_types::{
    add_distinct, entry_systems, merge_codes, obs_type_lines_v2, obs_type_lines_v3, sort_texts, system_types,
};
use rtcm2rinex::rinex::output::{output_plan, selected_systems, OutputPlan};
use rtcm2rinex::Error;
use rtcm2rinex::rinex::plan::{epoch_key, epoch_order, msm_observation_plan, ObservationKind};
use rtcm2rinex::rtcm::msm::{MsmEpoch, MsmSatelliteData, MsmSignalData};
use rtcm2rinex::rtcm::rtcm3::Rtcm3MessageType;

fn cell(satellite_index: u8, signal_index: u8, pseudorange: bool) -> MsmSignalData {
    MsmSignalData {
        satellite_index,
        signal_index,
        fine_pseudorange: if pseudorange { Some(10) } else { None },
        fine_phaserange: Some(20),
        lock_time_indicator: Some(1),
        half_cycle_ambiguity: Some(false),
        cnr: Some(40),
    }
}

#[test]
fn epoch_keys_are_whole_seconds() {
    assert_eq!(epoch_key(&MsmEpoch::TimeOfWeek { ms: 345_600_999 }), 345_600);
    assert_eq!(epoch_key(&MsmEpoch::GlonassDayTime { day_of_week: 2, ms: 1_500 }), 2 * 86_400 + 1);
    assert_eq!(epoch_key(&MsmEpoch::BeidouTimeOfWeek { ms: 1_000 }), 15);
    assert_eq!(epoch_key(&MsmEpoch::TimeOfWeek { ms: 999 }), 0);
}

#[test]
fn msm_cells_yield_typed_observations() {
    let msg = Rtcm3MessageType::Msm7Gps {
        station_id: 1,
        epoch_time: MsmEpoch::TimeOfWeek { ms: 0 },
        satellites: vec![
            MsmSatelliteData { satellite_id: 5, rough_range_ms: 1024, phase_range_rate: Some(3) },
            MsmSatelliteData { satellite_id: 12, rough_range_ms: 2048, phase_range_rate: None },
        ],
        signals: vec![cell(0, 0, true), cell(1, 3, false), cell(2, 1, true), cell(1, 12, true)],
    };
    let plan = msm_observation_plan(&msg);
    let seen: Vec<(usize, SatelliteId, String, ObservationKind)> =
        plan.iter().map(|o| (o.cell, o.satellite, o.obs_type.clone(), o.kind)).collect();
    let g05 = SatelliteId { system: GnssSystem::Gps, prn: 5 };
    let g12 = SatelliteId { system: GnssSystem::Gps, prn: 12 };
    assert_eq!(
        seen,
        vec![
            (0, g05, "G1C".to_string(), ObservationKind::Pseudorange),
            (0, g05, "L1C".to_string(), ObservationKind::Phase),
            (0, g05, "D1C".to_string(), ObservationKind::Doppler),
            (0, g05, "S1C".to_string(), ObservationKind::Strength),
            (1, g12, "L3X".to_string(), ObservationKind::Phase),
            (1, g12, "S3X".to_string(), ObservationKind::Strength),
            (3, g12, "G12X".to_string(), ObservationKind::Pseudorange),
            (3, g12, "L12X".to_string(), ObservationKind::Phase),
            (3, g12, "S12X".to_string(), ObservationKind::Strength),
        ]
    );
    assert_eq!(plan[0].satellite.to_string(), "G05");
}

#[test]
fn other_systems_use_their_letters() {
    let msg = Rtcm3MessageType::Msm4Beidou {
        station_id: 1,
        epoch_time: MsmEpoch::BeidouTimeOfWeek { ms: 0 },
        satellites: vec![MsmSatelliteData { satellite_id: 30, rough_range_ms: 0, phase_range_rate: None }],
        signals: vec![cell(0, 2, true)],
    };
    let types: Vec<String> = msm_observation_plan(&msg).iter().map(|o| o.obs_type.clone()).collect();
    assert_eq!(types, vec!["C5X", "L5X", "S5X"]);
}

#[test]
fn non_msm_messages_yield_nothing() {
    let msg = Rtcm3MessageType::Raw { msg_type: 1, payload: vec![] };
    assert!(msm_observation_plan(&msg).is_empty());
}

#[test]
fn v3_type_lines_per_system() {
    let types: Vec<String> = vec!["G1C".to_string(), "L1C".to_string(), "G2X".to_string()];
    let lines = obs_type_lines_v3(&types, 'G');
    assert_eq!(lines, vec![format!("G  2  1C  2X{}{:>56}", " ".repeat(44), "SYS / # / OBS TYPES")]);
    let lines_l = obs_type_lines_v3(&types, 'L');
    assert_eq!(lines_l, vec![format!("L  1  1C{}{:>56}", " ".repeat(48), "SYS / # / OBS TYPES")]);
    let none = obs_type_lines_v3(&types, 'R');
    assert_eq!(none, vec![format!("R  0{:>56}", "SYS / # / OBS TYPES")]);
}

#[test]
fn v3_type_lines_wrap_after_thirteen() {
    let types: Vec<String> = (0..14).map(|i| format!("E{}X", i)).collect();
    let lines = obs_type_lines_v3(&types, 'E');
    assert_eq!(lines.len(), 2);
    let first_fields: String = (0..13).map(|i| format!(" {:>3}", format!("{}X", i))).collect();
    assert_eq!(lines[0], format!("E 14{}{}SYS / # / OBS TYPES", first_fields, " ".repeat(56)));
    assert_eq!(lines[1], format!("E    13X{}{:>56}", " ".repeat(48), "SYS / # / OBS TYPES"));
}

#[test]
fn v2_type_lines_drop_system_letters_and_repeats() {
    let types: Vec<String> = vec!["G1C".to_string(), "L1C".to_string(), "S2X".to_string(), "X".to_string()];
    let lines = obs_type_lines_v2(&types);
    assert_eq!(lines, vec![format!("     2    1C    2X{}{:>54}", " ".repeat(42), "# / TYPES OF OBSERV")]);
    let empty = obs_type_lines_v2(&Vec::new());
    assert_eq!(empty, vec![format!("     0{:>54}", "# / TYPES OF OBSERV")]);
}

#[test]
fn v2_type_lines_wrap_after_nine() {
    let types: Vec<String> = (0..10).map(|i| format!("G{}C", i)).collect();
    let lines = obs_type_lines_v2(&types);
    let fields: String = (0..9).map(|i| format!("{:>6}", format!("{}C", i))).collect();
    assert_eq!(lines, vec![
        format!("    10{}{}# / TYPES OF OBSERV", fields, " ".repeat(54)),
        format!("{}{:>6}{}{:>54}", " ".repeat(6), "9C", " ".repeat(48), "# / TYPES OF OBSERV"),
    ]);
}

#[test]
fn record_types_are_merged_without_system_letters() {
    let mut all: Vec<String> = vec!["1C".to_string()];
    let gps: Vec<String> = vec!["G1C".to_string(), "L1C".to_string(), "G2X".to_string(), "".to_string(), "G".to_string()];
    merge_codes(&mut all, &gps);
    assert_eq!(all, vec!["1C".to_string(), "2X".to_string(), "".to_string()]);
}

#[test]
fn epochs_are_listed_in_increasing_order() {
    assert_eq!(epoch_order(&vec![30, -5, 12, 30, 0]), vec![-5, 0, 12, 30, 30]);
    assert_eq!(epoch_order(&vec![]), Vec::<i64>::new());
}

#[test]
fn type_lists_are_kept_distinct_and_sorted() {
    let mut list: Vec<String> = Vec::new();
    for t in ["S1C", "G1C", "L1C", "G1C", "D1C", "G12X", "G2X", "L"] {
        add_distinct(&mut list, &t.to_string());
    }
    assert_eq!(list, vec!["S1C", "G1C", "L1C", "D1C", "G12X", "G2X", "L"]);
    let sorted = sort_texts(&list);
    let mut expected = list.clone();
    expected.sort();
    assert_eq!(sorted, expected);
    assert_eq!(sorted, vec!["D1C", "G12X", "G1C", "G2X", "L", "L1C", "S1C"]);
    assert_eq!(sort_texts(&vec!["b".to_string(), "ab".to_string(), "a".to_string(), "".to_string()]), vec!["", "a", "ab", "b"]);
}

#[test]
fn output_plan_follows_options_and_data() {
    let all = vec!['G', 'R', 'E'];
    assert_eq!(
        output_plan(true, true, &all, true, true, true).unwrap(),
        OutputPlan { obs: true, gps_nav: true, glo_nav: true }
    );
    // Navigation only, GPS only selected, no GLONASS ephemerides.
    assert_eq!(
        output_plan(false, true, &vec!['G'], false, true, false).unwrap(),
        OutputPlan { obs: false, gps_nav: true, glo_nav: false }
    );
    // GLONASS ephemerides exist but R is not selected.
    assert_eq!(
        output_plan(true, true, &vec!['G', 'E'], true, false, true).unwrap(),
        OutputPlan { obs: true, gps_nav: false, glo_nav: false }
    );
    // Observations only.
    assert_eq!(
        output_plan(true, false, &all, true, true, true).unwrap(),
        OutputPlan { obs: true, gps_nav: false, glo_nav: false }
    );
    match output_plan(true, true, &all, false, true, true) {
        Err(Error::Other(s)) => assert_eq!(s, "No observation data available"),
        other => panic!("unexpected {:?}", other),
    }
}

#[test]
fn selected_systems_keep_present_order() {
    assert_eq!(selected_systems(&vec!['G', 'R'], &vec!['E', 'R', 'C', 'G']), vec!['R', 'G']);
    assert!(selected_systems(&vec![], &vec!['G']).is_empty());
}

#[test]
fn observation_types_are_grouped_by_system() {
    let entries: Vec<(String, Vec<String>)> = vec![
        ("G05".to_string(), vec!["G1C".to_string(), "L1C".to_string()]),
        ("R01".to_string(), vec!["R1C".to_string()]),
        ("G12".to_string(), vec!["S1C".to_string(), "G1C".to_string(), "D1C".to_string()]),
        ("".to_string(), vec!["X".to_string()]),
    ];
    assert_eq!(entry_systems(&entries), vec!['G', 'R']);
    assert_eq!(system_types(&entries, 'G'), vec!["D1C", "G1C", "L1C", "S1C"]);
    assert_eq!(system_types(&entries, 'R'), vec!["R1C"]);
    assert!(system_types(&entries, 'E').is_empty());
}
