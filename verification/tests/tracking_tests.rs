// Tests named after an engine behaviour check the decision the library
// makes for that behaviour, on the plain values the engine would hand it;
// the floating-point processing around the decision is not exercised here.

use gneiss_rtk::sat::{Constellation, SatelliteId};
use gneiss_rtk::tracking::{pr_window_entries, update_last_observed, LastObserved, PrWindowEntry, SignalPresence};

fn make_test_sat(prn: u8) -> SatelliteId {
    SatelliteId { constellation: Constellation::Gps, prn }
}

fn obs(sat: SatelliteId, l1: bool, l2: bool) -> SignalPresence {
    SignalPresence { sat, has_cp_l1: l1, has_cp_l2: l2 }
}

#[test]
fn test_update_last_observed_inserts_all() {
    let mut last = LastObserved::new();
    let sat1 = make_test_sat(1);
    let sat2 = make_test_sat(2);
    let matched = vec![obs(sat1, true, true), obs(sat2, true, false)];
    update_last_observed(&mut last, 5, &matched);
    assert_eq!(last.get(&(sat1, 1)), Some(5));
    assert_eq!(last.get(&(sat1, 2)), Some(5));
    assert_eq!(last.get(&(sat2, 1)), Some(5));
    assert!(!last.contains_key(&(sat2, 2)));
}

#[test]
fn test_update_last_observed_skips_none() {
    let mut last = LastObserved::new();
    let sat1 = make_test_sat(1);
    update_last_observed(&mut last, 3, &vec![obs(sat1, false, false)]);
    assert!(!last.contains_key(&(sat1, 1)));
    assert!(!last.contains_key(&(sat1, 2)));
}

#[test]
fn test_update_last_observed_overwrites_and_keeps_others() {
    let mut last = LastObserved::new();
    let sat1 = make_test_sat(1);
    let sat2 = make_test_sat(2);
    update_last_observed(&mut last, 3, &vec![obs(sat1, true, false), obs(sat2, true, true)]);
    update_last_observed(&mut last, 4, &vec![obs(sat1, true, false)]);
    assert_eq!(last.get(&(sat1, 1)), Some(4));
    assert_eq!(last.get(&(sat2, 1)), Some(3));
    assert_eq!(last.get(&(sat2, 2)), Some(3));
}

#[test]
fn test_last_observed_insert_and_get() {
    let mut last = LastObserved::new();
    let s = make_test_sat(9);
    assert_eq!(last.get(&(s, 1)), None);
    last.insert((s, 1), 10);
    last.insert((s, 1), 12);
    assert_eq!(last.get(&(s, 1)), Some(12));
}

#[test]
fn test_pr_window_entries_pr_rows_only() {
    let g1 = make_test_sat(1);
    let g2 = make_test_sat(2);
    let e5 = SatelliteId { constellation: Constellation::Galileo, prn: 5 };
    let mt = vec![(g1, 0u8), (g1, 1u8), (g2, 0u8), (e5, 0u8), (e5, 2u8)];
    let refs = vec![(Constellation::Gps, make_test_sat(7))];
    let entries = pr_window_entries(&mt, &refs, 30);
    assert_eq!(
        entries,
        vec![
            PrWindowEntry { row: 0, sat: g1, ref_sat: make_test_sat(7) },
            PrWindowEntry { row: 2, sat: g2, ref_sat: make_test_sat(7) },
            PrWindowEntry { row: 3, sat: e5, ref_sat: e5 },
        ]
    );
}

#[test]
fn test_pr_window_entries_disabled_by_zero_window() {
    let mt = vec![(make_test_sat(1), 0u8)];
    assert!(pr_window_entries(&mt, &vec![], 0).is_empty());
}
