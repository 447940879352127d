use gneiss_rtk::sat::{clock_columns, format_sp3_id, isb_state, ref_sat_for, Constellation, IsbState, SatelliteId};

fn sat(constellation: Constellation, prn: u8) -> SatelliteId {
    SatelliteId { constellation, prn }
}

#[test]
fn test_format_sp3_id_gps() {
    assert_eq!(format_sp3_id(sat(Constellation::Gps, 1)), "G01");
}

#[test]
fn test_format_sp3_id_glonass() {
    assert_eq!(format_sp3_id(sat(Constellation::Glonass, 24)), "R24");
}

#[test]
fn test_format_sp3_id_galileo() {
    assert_eq!(format_sp3_id(sat(Constellation::Galileo, 7)), "E07");
}

#[test]
fn test_format_sp3_id_beidou() {
    assert_eq!(format_sp3_id(sat(Constellation::Beidou, 10)), "C10");
}

#[test]
fn test_format_sp3_id_qzss() {
    assert_eq!(format_sp3_id(sat(Constellation::Qzss, 3)), "J03");
}

#[test]
fn test_format_sp3_id_sbas_fallback() {
    assert_eq!(format_sp3_id(sat(Constellation::Sbas, 5)), "?05");
}

#[test]
fn test_format_sp3_id_three_digit_prn() {
    assert_eq!(format_sp3_id(sat(Constellation::Sbas, 123)), "?123");
    assert_eq!(format_sp3_id(sat(Constellation::Gps, 0)), "G00");
    assert_eq!(format_sp3_id(sat(Constellation::Beidou, 99)), "C99");
    assert_eq!(format_sp3_id(sat(Constellation::Beidou, 100)), "C100");
}

#[test]
fn test_isb_state_per_constellation() {
    assert_eq!(isb_state(Constellation::Gps), None);
    assert_eq!(isb_state(Constellation::Qzss), None);
    assert_eq!(isb_state(Constellation::Sbas), None);
    assert_eq!(isb_state(Constellation::Glonass), Some(IsbState::Glonass));
    assert_eq!(isb_state(Constellation::Galileo), Some(IsbState::Galileo));
    assert_eq!(isb_state(Constellation::Beidou), Some(IsbState::Beidou));
}

#[test]
fn test_clock_columns() {
    assert_eq!(clock_columns(Constellation::Gps), vec![15]);
    assert_eq!(clock_columns(Constellation::Glonass), vec![15, 16]);
    assert_eq!(clock_columns(Constellation::Galileo), vec![15, 17]);
    assert_eq!(clock_columns(Constellation::Beidou), vec![15, 18]);
}

#[test]
fn test_ref_sat_lookup() {
    let table = vec![
        (Constellation::Galileo, sat(Constellation::Galileo, 11)),
        (Constellation::Gps, sat(Constellation::Gps, 4)),
    ];
    assert_eq!(ref_sat_for(&table, Constellation::Gps), Some(sat(Constellation::Gps, 4)));
    assert_eq!(ref_sat_for(&table, Constellation::Galileo), Some(sat(Constellation::Galileo, 11)));
    assert_eq!(ref_sat_for(&table, Constellation::Beidou), None);
}

#[test]
fn test_ref_sat_first_entry_wins() {
    let table = vec![
        (Constellation::Gps, sat(Constellation::Gps, 4)),
        (Constellation::Galileo, sat(Constellation::Galileo, 11)),
        (Constellation::Gps, sat(Constellation::Gps, 9)),
    ];
    assert_eq!(ref_sat_for(&table, Constellation::Gps), Some(sat(Constellation::Gps, 4)));
    assert_eq!(ref_sat_for(&table, Constellation::Galileo), Some(sat(Constellation::Galileo, 11)));
    assert_eq!(ref_sat_for(&vec![], Constellation::Gps), None);
}
