// Tests named after an engine behaviour check the decision the library
// makes for that behaviour, on the plain values the engine would hand it;
// the floating-point processing around the decision is not exercised here.

use gneiss_rtk::sat::{Constellation, SatelliteId};
use gneiss_rtk::tdcp::{tdcp_candidates, tdcp_continuations, tdcp_enough_pairs, TdcpCandidate, TdcpContinuation};
use gneiss_rtk::tracking::SignalPresence;

fn gps(prn: u8) -> SatelliteId {
    SatelliteId { constellation: Constellation::Gps, prn }
}

fn pair(sat: SatelliteId, rov_cp: bool, base_cp: bool) -> (SignalPresence, SignalPresence) {
    (
        SignalPresence { sat, has_cp_l1: rov_cp, has_cp_l2: false },
        SignalPresence { sat, has_cp_l1: base_cp, has_cp_l2: false },
    )
}

#[test]
fn test_tdcp_candidates_skip_reference_and_missing_phase() {
    let obs = vec![pair(gps(1), true, true), pair(gps(2), true, true), pair(gps(3), true, false), pair(gps(4), true, true)];
    let refs = vec![(Constellation::Gps, gps(2))];
    let c = tdcp_candidates(&obs, &refs);
    assert_eq!(
        c,
        vec![
            TdcpCandidate { obs_idx: 0, ref_rov_idx: 1, ref_base_idx: 1, sat: gps(1), ref_sat: gps(2) },
            TdcpCandidate { obs_idx: 3, ref_rov_idx: 1, ref_base_idx: 1, sat: gps(4), ref_sat: gps(2) },
        ]
    );
}

#[test]
fn test_tdcp_candidates_need_reference() {
    let obs = vec![pair(gps(1), true, true)];
    // No reference satellite for GPS, or a reference that is not observed.
    assert!(tdcp_candidates(&obs, &vec![]).is_empty());
    assert!(tdcp_candidates(&obs, &vec![(Constellation::Gps, gps(9))]).is_empty());
}

#[test]
fn test_tdcp_continuations_same_reference_required() {
    let obs = vec![pair(gps(1), true, true), pair(gps(2), true, true), pair(gps(4), true, true)];
    let prev = vec![(gps(1), gps(2)), (gps(4), gps(3)), (gps(5), gps(2))];
    let refs = vec![(Constellation::Gps, gps(2))];
    let c = tdcp_continuations(&prev, &obs, &refs);
    assert_eq!(
        c,
        vec![TdcpContinuation { prev_idx: 0, rov_idx: 0, base_idx: 0, ref_rov_idx: 1, ref_base_idx: 1 }]
    );
}

#[test]
fn test_tdcp_enough_pairs() {
    assert!(!tdcp_enough_pairs(3));
    assert!(tdcp_enough_pairs(4));
}
