// Tests named after an engine behaviour check the decision the library
// makes for that behaviour, on the plain values the engine would hand it;
// the floating-point processing around the decision is not exercised here.

use gneiss_rtk::epoch::nhc_applies;
use gneiss_rtk::types::{DynamicsModel, EngineError, EngineMode, IonosphereModel};

#[test]
fn test_engine_mode_default_is_rtk() {
    assert_eq!(EngineMode::default(), EngineMode::Rtk);
}

#[test]
fn test_is_tightly_coupled() {
    assert!(EngineMode::SppIns.is_tightly_coupled());
    assert!(EngineMode::RtkIns.is_tightly_coupled());
    assert!(EngineMode::PppIns.is_tightly_coupled());
    assert!(EngineMode::PppInsIekf.is_tightly_coupled());
    assert!(EngineMode::RtkInsIekf.is_tightly_coupled());

    assert!(!EngineMode::Spp.is_tightly_coupled());
    assert!(!EngineMode::SppInsLooselyCoupled.is_tightly_coupled());
    assert!(!EngineMode::Rtk.is_tightly_coupled());
    assert!(!EngineMode::RtkInsLooselyCoupled.is_tightly_coupled());
    assert!(!EngineMode::Ppp.is_tightly_coupled());
    assert!(!EngineMode::PppInsLooselyCoupled.is_tightly_coupled());
    assert!(!EngineMode::PppIekf.is_tightly_coupled());
}

#[test]
fn test_is_ppp() {
    assert!(EngineMode::Ppp.is_ppp());
    assert!(EngineMode::PppIns.is_ppp());
    assert!(EngineMode::PppInsLooselyCoupled.is_ppp());
    assert!(EngineMode::PppIekf.is_ppp());
    assert!(EngineMode::PppInsIekf.is_ppp());
    assert!(EngineMode::PppMultiEpoch.is_ppp());

    assert!(!EngineMode::Spp.is_ppp());
    assert!(!EngineMode::SppIns.is_ppp());
    assert!(!EngineMode::SppInsLooselyCoupled.is_ppp());
    assert!(!EngineMode::Rtk.is_ppp());
    assert!(!EngineMode::RtkIns.is_ppp());
    assert!(!EngineMode::RtkInsLooselyCoupled.is_ppp());
    assert!(!EngineMode::RtkInsIekf.is_ppp());
}

#[test]
fn test_engine_error_display() {
    assert_eq!(EngineError::NoObservations.to_string(), "No observations available");
    assert_eq!(EngineError::InitialSppFailed.to_string(), "Initial SPP failed");
    assert_eq!(
        EngineError::StateDisappeared.to_string(),
        "EKF state disappeared mid-execution"
    );
    assert_eq!(
        EngineError::InsufficientSatellites.to_string(),
        "Insufficient satellites for EKF update"
    );
    assert_eq!(
        EngineError::MissingBasePosition.to_string(),
        "Base station position must be provided"
    );
}

#[test]
fn test_engine_error_geodetic_mismatch_display() {
    let err = EngineError::GeodeticMismatch("datum mismatch");
    assert_eq!(err.to_string(), "Geodetic Gatekeeper Failed: datum mismatch");
}

#[test]
fn test_engine_mode_partial_eq() {
    assert_eq!(EngineMode::Spp, EngineMode::Spp);
    assert_ne!(EngineMode::Spp, EngineMode::Rtk);
}

#[test]
fn test_engine_mode_debug_clone_copy() {
    let mode = EngineMode::PppIekf;
    let _debug = format!("{:?}", mode);
    let cloned = mode;
    assert_eq!(mode, cloned);
}

#[test]
fn test_engine_error_debug() {
    let err = EngineError::NoObservations;
    let debug = format!("{:?}", err);
    assert!(debug.contains("NoObservations"));
}

#[test]
fn test_dynamics_model_variants() {
    assert_eq!(DynamicsModel::Static as u8, 0);
    assert_eq!(DynamicsModel::Pedestrian as u8, 1);
    assert_eq!(DynamicsModel::Automotive as u8, 2);
    assert_eq!(DynamicsModel::Marine as u8, 3);
    assert_eq!(DynamicsModel::Airborne as u8, 4);
}

#[test]
fn test_dynamics_model_default() {
    assert_eq!(DynamicsModel::default(), DynamicsModel::Automotive);
}

#[test]
fn test_dynamics_model_debug_and_clone() {
    let model = DynamicsModel::Automotive;
    let cloned = model;
    assert_eq!(format!("{:?}", cloned), "Automotive");
}

#[test]
fn test_ionosphere_model_variants() {
    assert_eq!(IonosphereModel::Klobuchar, IonosphereModel::Klobuchar);
    assert_eq!(IonosphereModel::Ionex, IonosphereModel::Ionex);
    assert_ne!(IonosphereModel::Klobuchar, IonosphereModel::Ionex);
}

#[test]
fn test_ionosphere_model_default() {
    assert_eq!(IonosphereModel::default(), IonosphereModel::Klobuchar);
}

#[test]
fn test_ionosphere_model_debug_and_clone() {
    let model = IonosphereModel::Klobuchar;
    let cloned = model;
    assert_eq!(format!("{:?}", cloned), "Klobuchar");
}

#[test]
fn test_ionosphere_model_partial_eq() {
    assert_eq!(IonosphereModel::Ionex, IonosphereModel::Ionex);
    assert_ne!(IonosphereModel::Klobuchar, IonosphereModel::Ionex);
}

#[test]
fn test_engine_mode_is_ppp_multiepoch() {
    assert!(EngineMode::PppMultiEpoch.is_ppp());
}

#[test]
fn test_engine_mode_is_tightly_coupled_all_variants() {
    let tight: &[EngineMode] = &[
        EngineMode::SppIns,
        EngineMode::RtkIns,
        EngineMode::PppIns,
        EngineMode::PppInsIekf,
        EngineMode::RtkInsIekf,
    ];
    for mode in tight {
        assert!(mode.is_tightly_coupled(), "{:?} should be tightly coupled", mode);
    }
    let loose: &[EngineMode] = &[
        EngineMode::Spp,
        EngineMode::SppInsLooselyCoupled,
        EngineMode::Rtk,
        EngineMode::RtkInsLooselyCoupled,
        EngineMode::Ppp,
        EngineMode::PppInsLooselyCoupled,
        EngineMode::PppIekf,
        EngineMode::PppMultiEpoch,
    ];
    for mode in loose {
        assert!(!mode.is_tightly_coupled(), "{:?} should not be tightly coupled", mode);
    }
}

#[test]
fn test_ppp_rtklib_is_ppp_and_tightly_coupled() {
    assert!(EngineMode::PppRtklib.is_ppp());
    assert!(EngineMode::PppRtklib.is_tightly_coupled());
}

#[test]
fn test_imu_prediction_modes() {
    let with_imu = [
        EngineMode::SppIns,
        EngineMode::RtkIns,
        EngineMode::PppIns,
        EngineMode::RtkInsLooselyCoupled,
        EngineMode::SppInsLooselyCoupled,
        EngineMode::PppInsLooselyCoupled,
        EngineMode::RtkInsIekf,
    ];
    for m in with_imu {
        assert!(m.uses_imu_prediction(), "{:?}", m);
        assert!(m.is_inertial(), "{:?}", m);
    }
    // The inertial factor-graph PPP mode carries an inertial solution but
    // does not propagate with the buffered samples.
    assert!(!EngineMode::PppInsIekf.uses_imu_prediction());
    assert!(EngineMode::PppInsIekf.is_inertial());
    for m in [EngineMode::Spp, EngineMode::Rtk, EngineMode::Ppp, EngineMode::PppIekf, EngineMode::PppRtklib, EngineMode::PppMultiEpoch] {
        assert!(!m.uses_imu_prediction(), "{:?}", m);
        assert!(!m.is_inertial(), "{:?}", m);
    }
}

#[test]
fn test_apply_nhc_updates_not_ins_mode_does_nothing() {
    // NHC enabled, mode Rtk (not inertial): no update, aligned or not.
    assert!(!nhc_applies(true, EngineMode::Rtk, false));
    assert!(!nhc_applies(true, EngineMode::Rtk, true));
}

#[test]
fn test_apply_nhc_updates_ins_not_aligned_does_nothing() {
    assert!(!nhc_applies(true, EngineMode::RtkIns, false));
}

#[test]
fn test_seeds_from_spp() {
    assert!(EngineMode::Rtk.seeds_from_spp(true));
    assert!(EngineMode::Ppp.seeds_from_spp(true));
    assert!(EngineMode::RtkIns.seeds_from_spp(false));
    assert!(!EngineMode::RtkIns.seeds_from_spp(true));
    assert!(!EngineMode::Spp.seeds_from_spp(false));
    assert!(!EngineMode::RtkInsIekf.seeds_from_spp(false));
    assert!(!EngineMode::PppIekf.seeds_from_spp(false));
}
