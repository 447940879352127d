// Tests named after an engine behaviour check the decision the library
// makes for that behaviour, on the plain values the engine would hand it;
// the floating-point processing around the decision is not exercised here.

use gneiss_rtk::dispatch::{processor_for, Processor};
use gneiss_rtk::epoch::{
    alignment_allowed, imu_samples_used, initial_state_plan, inner_gnss_mode, mode_after_inner_run, nhc_applies,
    seeds_isbs_from_spp,
    spp_route, sustained_motion, tdcp_runs, SppRoute,
};
use gneiss_rtk::types::{EngineError, EngineMode};

#[test]
fn test_process_spp_fails_on_empty_ephemeris_and_no_state() {
    assert_eq!(initial_state_plan(false, false), Err(EngineError::InitialSppFailed));
}

#[test]
fn test_init_spp_state_when_state_already_exists() {
    assert_eq!(initial_state_plan(true, false), Ok(false));
    assert_eq!(initial_state_plan(false, true), Ok(true));
}

#[test]
fn test_process_spp_preserves_state_on_failure_in_spp_mode() {
    assert_eq!(spp_route(EngineMode::Spp, false), SppRoute::FailPreservingState);
    assert_eq!(spp_route(EngineMode::Spp, true), SppRoute::EpochByEpoch);
    assert_eq!(spp_route(EngineMode::SppIns, false), SppRoute::Filter);
}

#[test]
fn test_isb_seeding() {
    assert!(seeds_isbs_from_spp(EngineMode::Rtk));
    assert!(!seeds_isbs_from_spp(EngineMode::Ppp));
}

#[test]
fn test_predict_state_non_ins_mode_ignores_imu() {
    assert!(!imu_samples_used(EngineMode::Rtk, true));
}

#[test]
fn test_predict_state_ins_mode_ignores_imu_when_not_aligned() {
    assert!(!imu_samples_used(EngineMode::RtkIns, false));
}

#[test]
fn test_predict_state_rtk_ins_iekf_mode_with_imu() {
    assert!(imu_samples_used(EngineMode::RtkInsIekf, true));
}

#[test]
fn test_predict_state_ppp_ins_mode_uses_imu_when_aligned() {
    assert!(imu_samples_used(EngineMode::PppIns, true));
}

#[test]
fn test_nhc_applies() {
    assert!(nhc_applies(true, EngineMode::RtkIns, true));
    assert!(!nhc_applies(false, EngineMode::RtkIns, true));
    assert!(!nhc_applies(true, EngineMode::Rtk, true));
    assert!(!nhc_applies(true, EngineMode::PppInsIekf, false));
}

#[test]
fn test_tdcp_runs() {
    assert!(tdcp_runs(true, 6, true));
    assert!(!tdcp_runs(true, 0, true));
    assert!(!tdcp_runs(true, 6, false));
    assert!(!tdcp_runs(false, 6, true));
}

#[test]
fn test_attempt_kinematic_alignment_non_tight_mode() {
    assert!(!alignment_allowed(false, EngineMode::Rtk, true));
    assert!(alignment_allowed(false, EngineMode::RtkIns, true));
    assert!(!alignment_allowed(true, EngineMode::RtkIns, true));
    assert!(!alignment_allowed(false, EngineMode::RtkIns, false));
}

#[test]
fn test_sustained_motion() {
    assert!(sustained_motion(true, &vec![false, true, true, true, true, true]));
    assert!(!sustained_motion(true, &vec![true, true, true, true]));
    assert!(!sustained_motion(false, &vec![true; 6]));
    assert!(!sustained_motion(true, &vec![true, true, false, true, true]));
}

#[test]
fn test_inner_gnss_mode() {
    assert_eq!(inner_gnss_mode(Processor::RtkLooselyCoupled), Some(EngineMode::Rtk));
    assert_eq!(inner_gnss_mode(Processor::SppLooselyCoupled), Some(EngineMode::Spp));
    assert_eq!(inner_gnss_mode(Processor::Rtk), None);
}

#[test]
fn test_process_rtk_loosely_coupled_fails_without_base_and_spp() {
    let configured = EngineMode::RtkInsLooselyCoupled;
    let p = processor_for(configured);
    assert_eq!(p, Processor::RtkLooselyCoupled);
    // No state, no base and no ephemerides: the inner RTK run fails.
    let inner = initial_state_plan(false, false);
    assert_eq!(mode_after_inner_run(p, configured, inner.is_ok()), EngineMode::RtkInsLooselyCoupled);
    assert!(matches!(inner, Err(EngineError::InitialSppFailed)));
}

#[test]
fn test_process_spp_loosely_coupled_seeds_state_when_none() {
    let configured = EngineMode::SppInsLooselyCoupled;
    let p = processor_for(configured);
    assert_eq!(p, Processor::SppLooselyCoupled);
    // The inner SPP run fails with empty ephemerides before the mode is
    // put back, so the engine stays in SPP mode.
    let inner = initial_state_plan(false, false);
    assert_eq!(mode_after_inner_run(p, configured, inner.is_ok()), EngineMode::Spp);
    assert!(matches!(inner, Err(EngineError::InitialSppFailed)));
}

#[test]
fn test_mode_after_successful_inner_run() {
    assert_eq!(
        mode_after_inner_run(Processor::SppLooselyCoupled, EngineMode::SppInsLooselyCoupled, true),
        EngineMode::SppInsLooselyCoupled
    );
    assert_eq!(
        mode_after_inner_run(Processor::RtkLooselyCoupled, EngineMode::RtkInsLooselyCoupled, true),
        EngineMode::RtkInsLooselyCoupled
    );
    assert_eq!(mode_after_inner_run(Processor::Rtk, EngineMode::Rtk, false), EngineMode::Rtk);
}
