use vstd::prelude::*;
use vstd::string::*;

verus! {

/// Positioning mode of the engine.
#[derive(Debug, Clone, Copy, PartialEq, Eq, Structural)]
pub enum EngineMode {
    Spp,
    SppIns,
    SppInsLooselyCoupled,
    Rtk,
    RtkIns,
    RtkInsLooselyCoupled,
    Ppp,
    PppIns,
    PppInsLooselyCoupled,
    PppIekf,
    PppInsIekf,
    PppRtklib,
    RtkInsIekf,
    /// Multi-epoch sliding-window factor graph PPP.
    PppMultiEpoch,
}

/// Modes whose GNSS observations are fused directly into the inertial filter.
pub open spec fn mode_is_tightly_coupled(m: EngineMode) -> bool {
    ||| m is SppIns
    ||| m is RtkIns
    ||| m is PppIns
    ||| m is PppInsIekf
    ||| m is RtkInsIekf
    ||| m is PppRtklib
}

/// Modes that solve with precise point positioning.
pub open spec fn mode_is_ppp(m: EngineMode) -> bool {
    ||| m is Ppp
    ||| m is PppIns
    ||| m is PppInsLooselyCoupled
    ||| m is PppIekf
    ||| m is PppInsIekf
    ||| m is PppRtklib
    ||| m is PppMultiEpoch
}

/// Modes in which buffered inertial samples drive the state prediction.
pub open spec fn mode_uses_imu_prediction(m: EngineMode) -> bool {
    ||| m is SppIns
    ||| m is RtkIns
    ||| m is PppIns
    ||| m is RtkInsLooselyCoupled
    ||| m is SppInsLooselyCoupled
    ||| m is PppInsLooselyCoupled
    ||| m is RtkInsIekf
}

/// Modes that carry an inertial navigation solution (and so may receive
/// zero-velocity / non-holonomic constraint updates).
pub open spec fn mode_is_inertial(m: EngineMode) -> bool {
    ||| mode_uses_imu_prediction(m)
    ||| m is PppInsIekf
}

/// Modes whose GNSS-only filter is re-seeded from single point positioning
/// during start-up; the inertial ones only when no inertial sample arrived.
pub open spec fn mode_seeds_from_spp(m: EngineMode, had_imu_data: bool) -> bool {
    ||| m is Rtk
    ||| m is Ppp
    ||| ((m is RtkIns || m is PppIns || m is SppIns || m is RtkInsLooselyCoupled
        || m is SppInsLooselyCoupled || m is PppInsLooselyCoupled) && !had_imu_data)
}

impl EngineMode {
    pub fn is_tightly_coupled(&self) -> (b: bool)
        ensures
            b == mode_is_tightly_coupled(*self),
    {
        match self {
            EngineMode::SppIns
            | EngineMode::RtkIns
            | EngineMode::PppIns
            | EngineMode::PppInsIekf
            | EngineMode::RtkInsIekf
            | EngineMode::PppRtklib => true,
            _ => false,
        }
    }

    pub fn is_ppp(&self) -> (b: bool)
        ensures
            b == mode_is_ppp(*self),
    {
        match self {
            EngineMode::Ppp
            | EngineMode::PppIns
            | EngineMode::PppInsLooselyCoupled
            | EngineMode::PppIekf
            | EngineMode::PppInsIekf
            | EngineMode::PppRtklib
            | EngineMode::PppMultiEpoch => true,
            _ => false,
        }
    }

    /// Whether the inertial samples buffered since the last epoch are used
    /// when the state is propagated to the new epoch.
    pub fn uses_imu_prediction(&self) -> (b: bool)
        ensures
            b == mode_uses_imu_prediction(*self),
    {
        match self {
            EngineMode::SppIns
            | EngineMode::RtkIns
            | EngineMode::PppIns
            | EngineMode::RtkInsLooselyCoupled
            | EngineMode::SppInsLooselyCoupled
            | EngineMode::PppInsLooselyCoupled
            | EngineMode::RtkInsIekf => true,
            _ => false,
        }
    }

    /// Whether the mode carries an inertial solution.
    pub fn is_inertial(&self) -> (b: bool)
        ensures
            b == mode_is_inertial(*self),
    {
        match self {
            EngineMode::SppIns
            | EngineMode::RtkIns
            | EngineMode::PppIns
            | EngineMode::RtkInsLooselyCoupled
            | EngineMode::SppInsLooselyCoupled
            | EngineMode::PppInsLooselyCoupled
            | EngineMode::PppInsIekf
            | EngineMode::RtkInsIekf => true,
            _ => false,
        }
    }

    /// Whether the filter may be re-seeded from the single point solution
    /// while it is still young.
    pub fn seeds_from_spp(&self, had_imu_data: bool) -> (b: bool)
        ensures
            b == mode_seeds_from_spp(*self, had_imu_data),
    {
        match self {
            EngineMode::Rtk | EngineMode::Ppp => true,
            EngineMode::RtkIns
            | EngineMode::PppIns
            | EngineMode::SppIns
            | EngineMode::RtkInsLooselyCoupled
            | EngineMode::SppInsLooselyCoupled
            | EngineMode::PppInsLooselyCoupled => !had_imu_data,
            _ => false,
        }
    }
}

impl Default for EngineMode {
    fn default() -> (m: Self)
        ensures
            m == EngineMode::Rtk,
    {
        EngineMode::Rtk
    }
}

/// Vehicle dynamics model used to tune process noise.
#[derive(Clone, Copy, Debug, PartialEq, Eq, Structural)]
pub enum DynamicsModel {
    Static,
    Pedestrian,
    Automotive,
    Marine,
    Airborne,
}

impl Default for DynamicsModel {
    fn default() -> (m: Self)
        ensures
            m == DynamicsModel::Automotive,
    {
        DynamicsModel::Automotive
    }
}

/// Ionospheric delay model.
#[derive(Clone, Copy, Debug, PartialEq, Eq, Structural)]
pub enum IonosphereModel {
    /// Klobuchar model: broadcast parameters, metre-level accuracy.
    Klobuchar,
    /// IONEX grid maps: needs a downloaded file, centimetre-level accuracy.
    Ionex,
}

impl Default for IonosphereModel {
    fn default() -> (m: Self)
        ensures
            m == IonosphereModel::Klobuchar,
    {
        IonosphereModel::Klobuchar
    }
}

/// Errors reported by the processing engine.
#[derive(Debug, Clone, Copy, PartialEq)]
pub enum EngineError {
    NoObservations,
    InitialSppFailed,
    StateDisappeared,
    InsufficientSatellites,
    MissingBasePosition,
    GeodeticMismatch(&'static str),
}

/// The human-readable text of an error.
pub open spec fn error_message(e: EngineError) -> Seq<char> {
    match e {
        EngineError::NoObservations => "No observations available"@,
        EngineError::InitialSppFailed => "Initial SPP failed"@,
        EngineError::StateDisappeared => "EKF state disappeared mid-execution"@,
        EngineError::InsufficientSatellites => "Insufficient satellites for EKF update"@,
        EngineError::MissingBasePosition => "Base station position must be provided"@,
        EngineError::GeodeticMismatch(msg) => "Geodetic Gatekeeper Failed: "@ + msg@,
    }
}

impl EngineError {
    /// The error rendered as text.
    pub fn to_string(&self) -> (s: String)
        ensures
            s@ == error_message(*self),
    {
        match self {
            EngineError::NoObservations => String::from_str("No observations available"),
            EngineError::InitialSppFailed => String::from_str("Initial SPP failed"),
            EngineError::StateDisappeared => String::from_str(
                "EKF state disappeared mid-execution",
            ),
            EngineError::InsufficientSatellites => String::from_str(
                "Insufficient satellites for EKF update",
            ),
            EngineError::MissingBasePosition => String::from_str(
                "Base station position must be provided",
            ),
            EngineError::GeodeticMismatch(msg) => {
                let s = String::from_str("Geodetic Gatekeeper Failed: ");
                s.concat(msg)
            },
        }
    }
}

} // verus!
