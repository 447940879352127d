// Tests named after an engine behaviour check the decision the library
// makes for that behaviour, on the plain values the engine would hand it;
// the floating-point processing around the decision is not exercised here.

use gneiss_rtk::ambiguity::{
    build_ambiguity_map, build_identity_amb_map, describe_dd_row, find_matched_ambiguities,
    position_of, AmbiguityKey, ColumnSign, DdRowLayout,
};
use gneiss_rtk::factor::{factor_graph_dimension, plan_dd_factor, plan_epoch_factors, save_prev_epoch_layouts, FactorPlan, OFF_AMB, OFF_CURR_POS, OFF_PREV_POS};
use gneiss_rtk::sat::{Constellation, SatelliteId};
use gneiss_rtk::smoothing::CORE_STATE_SIZE;

fn make_sat(prn: u8) -> SatelliteId {
    SatelliteId { constellation: Constellation::Gps, prn }
}

#[test]
fn test_build_ambiguity_map() {
    let prev = vec![(make_sat(1), 1), (make_sat(2), 1), (make_sat(3), 1)];
    let curr = vec![(make_sat(2), 1), (make_sat(1), 1), (make_sat(4), 1)];
    let amb_map = build_ambiguity_map(&prev, &curr);
    assert_eq!(amb_map[0], Some(1));
    assert_eq!(amb_map[1], Some(0));
    assert_eq!(amb_map[2], None);
}

#[test]
fn test_build_ambiguity_map_band_matters() {
    let prev = vec![(make_sat(1), 2)];
    let curr = vec![(make_sat(1), 1), (make_sat(1), 2)];
    assert_eq!(build_ambiguity_map(&prev, &curr), vec![Some(1)]);
}

#[test]
fn test_position_of_first_occurrence() {
    let keys: Vec<AmbiguityKey> = vec![(make_sat(5), 1), (make_sat(6), 1), (make_sat(5), 1)];
    assert_eq!(position_of(&keys, &(make_sat(5), 1)), Some(0));
    assert_eq!(position_of(&keys, &(make_sat(6), 1)), Some(1));
    assert_eq!(position_of(&keys, &(make_sat(6), 2)), None);
}

#[test]
fn test_build_identity_amb_map() {
    assert_eq!(build_identity_amb_map(3), vec![Some(0), Some(1), Some(2)]);
    assert!(build_identity_amb_map(0).is_empty());
}

#[test]
fn test_find_matched_ambiguities_empty() {
    let (mk, mk1) = find_matched_ambiguities(&vec![], &vec![], &vec![], &vec![], &vec![], CORE_STATE_SIZE);
    assert!(mk.is_empty());
    assert!(mk1.is_empty());
}

#[test]
fn test_find_matched_ambiguities_no_common_sat() {
    let keys_k = vec![(make_sat(1), 1)];
    let keys_k1 = vec![(make_sat(2), 1)];
    let (mk, mk1) = find_matched_ambiguities(&keys_k, &vec![0], &keys_k1, &vec![0], &vec![true], CORE_STATE_SIZE);
    assert!(mk.is_empty());
    assert!(mk1.is_empty());
}

#[test]
fn test_find_matched_ambiguities_common_sat_matches() {
    let keys = vec![(make_sat(1), 1)];
    let (mk, mk1) = find_matched_ambiguities(&keys, &vec![0], &keys, &vec![0], &vec![true], CORE_STATE_SIZE);
    assert_eq!(mk.len(), 1);
    assert_eq!(mk1.len(), 1);
    assert_eq!(mk[0], CORE_STATE_SIZE);
    assert_eq!(mk1[0], CORE_STATE_SIZE);
}

#[test]
fn test_find_matched_ambiguities_track_id_mismatch_blocks_match() {
    let keys = vec![(make_sat(1), 1)];
    let (mk, mk1) = find_matched_ambiguities(&keys, &vec![10], &keys, &vec![20], &vec![true], CORE_STATE_SIZE);
    assert!(mk.is_empty());
    assert!(mk1.is_empty());
}

#[test]
fn test_find_matched_ambiguities_covariance_threshold_filters() {
    // Variance 20 at epoch k+1 is above the smoothing limit: not converged.
    let keys = vec![(make_sat(1), 1)];
    let (mk, mk1) = find_matched_ambiguities(&keys, &vec![0], &keys, &vec![0], &vec![false], CORE_STATE_SIZE);
    assert!(mk.is_empty());
    assert!(mk1.is_empty());
}

#[test]
fn test_find_matched_ambiguities_reordered_keys() {
    let keys_k = vec![(make_sat(1), 1), (make_sat(2), 1), (make_sat(3), 1)];
    let keys_k1 = vec![(make_sat(3), 1), (make_sat(1), 1)];
    let (mk, mk1) = find_matched_ambiguities(
        &keys_k,
        &vec![7, 8, 9],
        &keys_k1,
        &vec![9, 7],
        &vec![true, true],
        CORE_STATE_SIZE,
    );
    assert_eq!(mk, vec![CORE_STATE_SIZE, CORE_STATE_SIZE + 2]);
    assert_eq!(mk1, vec![CORE_STATE_SIZE + 1, CORE_STATE_SIZE]);
}

#[test]
fn test_extract_h_row_pr() {
    let sat = make_sat(1);
    let row = describe_dd_row(sat, 0, &vec![ColumnSign::Zero], &vec![]);
    assert!(row.is_pr);
    assert_eq!(row.freq_band, 1);
    assert!(row.amb_idx.is_none());
    assert_eq!(row.ref_sat_id, sat);
}

#[test]
fn test_extract_h_row_cp_with_amb() {
    let sat = make_sat(2);
    let ref_sat = make_sat(1);
    let keys = vec![(ref_sat, 1), (sat, 1)];
    let signs = vec![ColumnSign::Negative, ColumnSign::Positive];
    let row = describe_dd_row(sat, 1, &signs, &keys);
    assert!(!row.is_pr);
    assert_eq!(row.freq_band, 1);
    assert_eq!(row.amb_idx, Some(1));
    assert_eq!(row.ref_amb_idx, Some(0));
    assert_eq!(row.ref_sat_id, ref_sat);
    assert_eq!(row.iono_pair, None);
}

#[test]
fn test_describe_dd_row_iono_pair_and_band() {
    let sat = make_sat(2);
    let ref_sat = make_sat(1);
    let keys = vec![(ref_sat, 2), (sat, 2), (ref_sat, 3), (sat, 3)];
    let signs = vec![
        ColumnSign::Negative,
        ColumnSign::Positive,
        ColumnSign::Negative,
        ColumnSign::Positive,
        ColumnSign::Positive, // beyond the keys: ignored
    ];
    let row = describe_dd_row(sat, 2, &signs, &keys);
    assert_eq!(row.freq_band, 2);
    assert_eq!(row.amb_idx, Some(1));
    assert_eq!(row.ref_amb_idx, Some(0));
    assert_eq!(row.iono_pair, Some((3, 2)));
}

#[test]
fn test_describe_dd_row_only_one_iono_state_gives_no_pair() {
    let sat = make_sat(2);
    let keys = vec![(sat, 3)];
    let row = describe_dd_row(sat, 1, &vec![ColumnSign::Positive], &keys);
    assert_eq!(row.iono_pair, None);
    assert_eq!(row.amb_idx, None);
    assert_eq!(row.ref_sat_id, sat);
}

fn cp_row(amb: Option<usize>, ref_amb: Option<usize>, iono: Option<(usize, usize)>) -> DdRowLayout {
    DdRowLayout {
        sat_id: make_sat(2),
        ref_sat_id: make_sat(1),
        is_pr: false,
        freq_band: 1,
        amb_idx: amb,
        ref_amb_idx: ref_amb,
        iono_pair: iono,
    }
}

#[test]
fn test_plan_dd_factor_pseudorange() {
    let mut row = cp_row(None, None, None);
    row.is_pr = true;
    let plan = plan_dd_factor(&row, OFF_CURR_POS, OFF_AMB, &vec![]);
    assert_eq!(plan, Some(FactorPlan::Pseudorange { index_px: 7, index_py: 8, index_pz: 9 }));
}

#[test]
fn test_plan_dd_factor_carrier_phase_mapped() {
    let amb_map = vec![Some(1), Some(0), None, Some(3), Some(2)];
    let row = cp_row(Some(0), Some(1), Some((3, 4)));
    let plan = plan_dd_factor(&row, OFF_PREV_POS, OFF_AMB, &amb_map);
    assert_eq!(
        plan,
        Some(FactorPlan::CarrierPhase {
            index_px: 0,
            index_py: 1,
            index_pz: 2,
            index_amb_sat: 15,
            index_amb_ref: 14,
            iono_pair: Some((17, 16)),
        })
    );
}

#[test]
fn test_plan_dd_factor_dropped_ambiguity_skips() {
    let amb_map = vec![Some(1), Some(0), None];
    assert_eq!(plan_dd_factor(&cp_row(Some(2), Some(0), None), 0, OFF_AMB, &amb_map), None);
    assert_eq!(plan_dd_factor(&cp_row(Some(0), Some(7), None), 0, OFF_AMB, &amb_map), None);
    assert_eq!(plan_dd_factor(&cp_row(None, Some(0), None), 0, OFF_AMB, &amb_map), None);
    // An unmapped ionosphere state only drops the ionosphere pair.
    let plan = plan_dd_factor(&cp_row(Some(0), Some(1), Some((0, 2))), 0, OFF_AMB, &amb_map);
    assert_eq!(
        plan,
        Some(FactorPlan::CarrierPhase {
            index_px: 0,
            index_py: 1,
            index_pz: 2,
            index_amb_sat: 15,
            index_amb_ref: 14,
            iono_pair: None,
        })
    );
}

#[test]
fn test_factor_graph_dimension() {
    assert_eq!(factor_graph_dimension(0), None);
    assert_eq!(factor_graph_dimension(4), Some(18));
}

#[test]
fn test_save_prev_epoch_layouts_and_plan_epoch_factors() {
    let s1 = make_sat(1);
    let s2 = make_sat(2);
    let s3 = make_sat(3);
    let keys = vec![(s1, 1), (s2, 1), (s3, 1)];
    let mt = vec![(s2, 0u8), (s2, 1u8), (s3, 1u8)];
    let signs = vec![
        vec![ColumnSign::Zero, ColumnSign::Zero, ColumnSign::Zero],
        vec![ColumnSign::Negative, ColumnSign::Positive, ColumnSign::Zero],
        vec![ColumnSign::Negative, ColumnSign::Zero, ColumnSign::Positive],
    ];
    let rows = save_prev_epoch_layouts(&mt, &signs, &keys);
    assert_eq!(rows.len(), 3);
    assert!(rows[0].is_pr);
    assert_eq!((rows[1].amb_idx, rows[1].ref_amb_idx), (Some(1), Some(0)));
    assert_eq!((rows[2].amb_idx, rows[2].ref_amb_idx), (Some(2), Some(0)));

    // Satellite 3's ambiguity was dropped at the next epoch.
    let curr = vec![(s2, 1), (s1, 1)];
    let map = build_ambiguity_map(&keys, &curr);
    let plans = plan_epoch_factors(&rows, OFF_PREV_POS, OFF_AMB, &map);
    assert_eq!(
        plans,
        vec![
            FactorPlan::Pseudorange { index_px: 0, index_py: 1, index_pz: 2 },
            FactorPlan::CarrierPhase {
                index_px: 0,
                index_py: 1,
                index_pz: 2,
                index_amb_sat: 14,
                index_amb_ref: 15,
                iono_pair: None,
            },
        ]
    );
}
