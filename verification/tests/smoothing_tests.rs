// Tests named after an engine behaviour check the decision the library
// makes for that behaviour, on the plain values the engine would hand it;
// the floating-point processing around the decision is not exercised here.

use gneiss_rtk::smoothing::{
    backward_order, check_frozen_in_bounds, check_smoother_dimensions, check_smoothing_inputs,
    check_transition_shape, is_frozen_index, phi_entry, SmootherShapes,
    plan_inversion, ppk_should_smooth, smoothing_indices, smoothing_step, InversionPlan, PhiEntry,
    SmoothingStep, CORE_STATE_SIZE, FROZEN_BACKWARD_INDICES,
};
use gneiss_rtk::types::{EngineError, EngineMode};

#[test]
fn test_frozen_indices_contract_matches_actual_array() {
    assert_eq!(
        FROZEN_BACKWARD_INDICES,
        [16, 17, 18],
        "FROZEN_BACKWARD_INDICES changed — update phi, inversion, and \
         delta_x/correction freeze points, then re-benchmark Odaiba/Shinjuku"
    );
}

#[test]
fn test_frozen_indices_cannot_include_clock_drift_or_zwd() {
    assert!(
        !FROZEN_BACKWARD_INDICES.contains(&15),
        "Clock bias (15) must NOT be explicitly frozen — white-noise model handles it"
    );
    assert!(!FROZEN_BACKWARD_INDICES.contains(&19), "Clock drift (19) must NOT be frozen");
    assert!(!FROZEN_BACKWARD_INDICES.contains(&20), "ZWD (20) must NOT be frozen");
}

#[test]
fn test_is_frozen_index() {
    for i in 0..30 {
        assert_eq!(is_frozen_index(i), FROZEN_BACKWARD_INDICES.contains(&i));
    }
}

#[test]
fn test_build_phi_submatrix_diagonal_and_ambiguity_identity() {
    let core = CORE_STATE_SIZE;
    assert_eq!(phi_entry(core, core, core), PhiEntry::One);
    assert_eq!(phi_entry(core + 1, core + 1, core), PhiEntry::One);
    assert_eq!(phi_entry(0, 0, core), PhiEntry::Copy);
    assert_eq!(phi_entry(15, 15, core), PhiEntry::Copy);
    assert_eq!(phi_entry(16, 16, core), PhiEntry::Zero);
    assert_eq!(phi_entry(17, 17, core), PhiEntry::Zero);
    assert_eq!(phi_entry(18, 18, core), PhiEntry::Zero);
    assert_eq!(phi_entry(16, 0, core), PhiEntry::Zero);
    assert_eq!(phi_entry(core, core + 1, core), PhiEntry::Zero);
}

#[test]
fn test_build_phi_submatrix_small_core() {
    assert_eq!(phi_entry(0, 0, 6), PhiEntry::Copy);
    assert_eq!(phi_entry(5, 5, 6), PhiEntry::Copy);
}

#[test]
fn test_build_phi_submatrix_core_size_15() {
    // A core of 15 states holds no bias state: nothing is frozen.
    for i in 0..15 {
        for j in 0..15 {
            assert_eq!(phi_entry(i, j, 15), PhiEntry::Copy);
        }
    }
}

#[test]
fn test_frozen_indices_are_all_excluded_from_phi() {
    let core = CORE_STATE_SIZE;
    for &idx in &FROZEN_BACKWARD_INDICES {
        for j in 0..core {
            assert_eq!(phi_entry(idx, j, core), PhiEntry::Zero);
            assert_eq!(phi_entry(j, idx, core), PhiEntry::Zero);
        }
    }
}

#[test]
fn test_invert_p_pred_all_active() {
    assert_eq!(plan_inversion(&vec![true, true, true]), Ok(InversionPlan::Full));
}

#[test]
fn test_invert_p_pred_partial_inactive() {
    assert_eq!(plan_inversion(&vec![true, false]), Ok(InversionPlan::Partial(vec![0])));
}

#[test]
fn test_invert_p_pred_none_active() {
    let res = plan_inversion(&vec![false, false]);
    assert!(res.is_err());
    assert_eq!(res.unwrap_err(), "no active elements");
}

#[test]
fn test_invert_p_pred_clock_included_isb_excluded_from_inversion() {
    let plan = plan_inversion(&vec![true; 19]).unwrap();
    let expected: Vec<usize> = (0..16).collect();
    assert_eq!(plan, InversionPlan::Partial(expected));
}

#[test]
fn test_frozen_indices_are_excluded_from_inversion() {
    match plan_inversion(&vec![true; 21]).unwrap() {
        InversionPlan::Partial(active) => {
            for &idx in &FROZEN_BACKWARD_INDICES {
                assert!(!active.contains(&idx));
            }
        }
        InversionPlan::Full => panic!("frozen states must not be inverted"),
    }
}

#[test]
fn test_non_frozen_indices_are_included_in_inversion() {
    match plan_inversion(&vec![true; 21]).unwrap() {
        InversionPlan::Partial(active) => {
            for idx in [0, 3, 6, 15, 19, 20] {
                assert!(active.contains(&idx));
            }
        }
        InversionPlan::Full => panic!("frozen states must not be inverted"),
    }
}

#[test]
fn test_invert_p_pred_all_frozen_indices() {
    // Only frozen states: nothing is active.
    let positive = vec![false, false, false, false, false, false, false, false, false, false, false, false, false, false, false, false, true, true, true];
    assert_eq!(plan_inversion(&positive), Err("no active elements"));
}

#[test]
fn test_run_combined_ppk_empty_history_fails() {
    assert_eq!(ppk_should_smooth(0, EngineMode::Rtk), Err(EngineError::NoObservations));
}

#[test]
fn test_run_combined_ppk_spp_mode_returns_early() {
    assert_eq!(ppk_should_smooth(1, EngineMode::Spp), Ok(false));
}

#[test]
fn test_run_combined_ppk_single_epoch_no_smoothing() {
    assert_eq!(ppk_should_smooth(1, EngineMode::Rtk), Ok(true));
    assert!(backward_order(1).is_empty());
}

#[test]
fn test_backward_order() {
    assert_eq!(backward_order(4), vec![2, 1, 0]);
    assert!(backward_order(0).is_empty());
}

#[test]
fn test_run_combined_ppk_reset_epoch_skips_smoothing() {
    assert_eq!(smoothing_step(true, true, 5, 5), SmoothingStep::SkipReset);
}

#[test]
fn test_run_combined_ppk_missing_phi_skips() {
    assert_eq!(smoothing_step(false, false, 5, 5), SmoothingStep::SkipMissingPrediction);
}

#[test]
fn test_smoothing_step_cold_start_and_smooth() {
    assert_eq!(smoothing_step(false, true, 1, 5), SmoothingStep::SkipColdStart);
    assert_eq!(smoothing_step(false, true, 5, 1), SmoothingStep::SkipColdStart);
    assert_eq!(smoothing_step(false, true, 2, 2), SmoothingStep::Smooth);
}

#[test]
fn test_smoothing_indices() {
    let idx = smoothing_indices(3, &vec![21, 24]);
    assert_eq!(idx, vec![0, 1, 2, 21, 24]);
}

#[test]
fn test_validate_smoother_state_rejects_non_square() {
    assert_eq!(check_smoother_dimensions(3, 4, 3, 3, 3), Err("covariance must be square and non-empty"));
}

#[test]
fn test_validate_smoother_state_empty_covariance() {
    assert_eq!(check_smoother_dimensions(0, 0, 0, 0, 0), Err("covariance must be square and non-empty"));
}

#[test]
fn test_validate_smoother_state_rejects_dimension_mismatch() {
    assert_eq!(check_smoother_dimensions(3, 3, 4, 4, 3), Err("p_pred dimensions must match covariance"));
}

#[test]
fn test_validate_smoother_state_rejects_smaller_than_core() {
    assert_eq!(check_smoother_dimensions(3, 3, 3, 3, 6), Err("covariance smaller than core_size"));
    assert_eq!(check_smoother_dimensions(21, 21, 21, 21, 21), Ok(()));
}

#[test]
fn test_validate_smoother_state_frozen_index_out_of_bounds() {
    assert_eq!(check_frozen_in_bounds(16, 17), Err("frozen index exceeds state dimension"));
    assert_eq!(check_frozen_in_bounds(16, 19), Ok(()));
    assert_eq!(check_frozen_in_bounds(15, 3), Ok(()));
}

#[test]
fn test_invert_p_pred_empty_state_inverts_whole() {
    assert_eq!(plan_inversion(&vec![]), Ok(InversionPlan::Full));
}

fn shapes(n_k: usize, n_k1: usize) -> SmootherShapes {
    SmootherShapes {
        phi_rows: n_k,
        phi_cols: n_k,
        p_pred_rows: n_k1,
        p_pred_cols: n_k1,
        x_pred_len: n_k1,
        cov_k_rows: n_k,
        cov_k_cols: n_k,
        cov_k1_rows: n_k1,
        cov_k1_cols: n_k1,
    }
}

fn core_then(matched: &[usize]) -> Vec<usize> {
    let mut v: Vec<usize> = (0..CORE_STATE_SIZE).collect();
    v.extend_from_slice(matched);
    v
}

#[test]
fn test_smoothing_inputs_accepts_consistent_shapes() {
    let idx_k = core_then(&[21, 23]);
    let idx_k1 = core_then(&[22, 21]);
    assert_eq!(check_smoothing_inputs(&shapes(24, 23), CORE_STATE_SIZE, &idx_k, &idx_k1), Ok(()));
}

#[test]
fn test_smoothing_inputs_rejects_small_transition() {
    let mut sh = shapes(24, 24);
    sh.phi_cols = 20;
    let idx = core_then(&[]);
    assert_eq!(
        check_smoothing_inputs(&sh, CORE_STATE_SIZE, &idx, &idx),
        Err("transition matrix smaller than core_size")
    );
    assert_eq!(check_transition_shape(20, 21, CORE_STATE_SIZE), Err("transition matrix smaller than core_size"));
    assert_eq!(check_transition_shape(21, 21, CORE_STATE_SIZE), Ok(()));
}

#[test]
fn test_smoothing_inputs_rejects_index_outside_each_matrix() {
    let idx_k = core_then(&[23]);
    let idx_k1 = core_then(&[22]);
    assert_eq!(
        check_smoothing_inputs(&shapes(23, 23), CORE_STATE_SIZE, &idx_k, &idx_k1),
        Err("smoothed index outside the covariance at k")
    );
    assert_eq!(
        check_smoothing_inputs(&shapes(24, 22), CORE_STATE_SIZE, &idx_k, &idx_k1),
        Err("smoothed index outside the covariance at k+1")
    );
    let mut sh = shapes(24, 23);
    sh.p_pred_cols = 22;
    assert_eq!(check_smoothing_inputs(&sh, CORE_STATE_SIZE, &idx_k, &idx_k1), Err("smoothed index outside p_pred"));
    let mut sh = shapes(24, 23);
    sh.x_pred_len = 21;
    assert_eq!(check_smoothing_inputs(&sh, CORE_STATE_SIZE, &idx_k, &idx_k1), Err("smoothed index outside x_pred"));
}
