use vstd::prelude::*;
use crate::sat::{Constellation, SatelliteId};
use crate::types::{EngineError, EngineMode};

verus! {

/// The solver an epoch is handed to.
#[derive(Clone, Copy, Debug, PartialEq, Eq, Structural)]
pub enum Processor {
    /// Epoch-by-epoch single point positioning.
    Spp,
    /// Single point positioning fused tightly with the inertial filter.
    SppTightlyCoupled,
    /// Single point positioning fused loosely with the inertial filter.
    SppLooselyCoupled,
    /// Real-time kinematic (also with tightly coupled inertial data).
    Rtk,
    /// Real-time kinematic refined by the iterated factor graph.
    RtkFactorGraph,
    /// Real-time kinematic fused loosely with the inertial filter.
    RtkLooselyCoupled,
    /// Precise point positioning.
    Ppp,
    /// Precise point positioning with the inertial factor graph.
    PppInsFactorGraph,
}

/// The solver of each mode. Every precise-point-positioning mode without
/// an inertial factor graph, `PppRtklib` included, goes to the PPP
/// solver: no other solver handles a PPP mode.
pub open spec fn spec_processor_for(mode: EngineMode) -> Processor {
    match mode {
        EngineMode::Spp => Processor::Spp,
        EngineMode::SppIns => Processor::SppTightlyCoupled,
        EngineMode::SppInsLooselyCoupled => Processor::SppLooselyCoupled,
        EngineMode::Rtk | EngineMode::RtkIns => Processor::Rtk,
        EngineMode::RtkInsIekf => Processor::RtkFactorGraph,
        EngineMode::RtkInsLooselyCoupled => Processor::RtkLooselyCoupled,
        EngineMode::Ppp
        | EngineMode::PppIns
        | EngineMode::PppInsLooselyCoupled
        | EngineMode::PppIekf
        | EngineMode::PppRtklib
        | EngineMode::PppMultiEpoch => Processor::Ppp,
        EngineMode::PppInsIekf => Processor::PppInsFactorGraph,
    }
}

/// Chooses the solver for the configured mode (`PppRtklib` runs on the PPP
/// solver, as every PPP mode without an inertial factor graph does).
pub fn processor_for(mode: EngineMode) -> (p: Processor)
    ensures
        p == spec_processor_for(mode),
{
    match mode {
        EngineMode::Spp => Processor::Spp,
        EngineMode::SppIns => Processor::SppTightlyCoupled,
        EngineMode::SppInsLooselyCoupled => Processor::SppLooselyCoupled,
        EngineMode::Rtk | EngineMode::RtkIns => Processor::Rtk,
        EngineMode::RtkInsIekf => Processor::RtkFactorGraph,
        EngineMode::RtkInsLooselyCoupled => Processor::RtkLooselyCoupled,
        EngineMode::Ppp
        | EngineMode::PppIns
        | EngineMode::PppInsLooselyCoupled
        | EngineMode::PppIekf
        | EngineMode::PppRtklib
        | EngineMode::PppMultiEpoch => Processor::Ppp,
        EngineMode::PppInsIekf => Processor::PppInsFactorGraph,
    }
}

/// Every precise-point mode is handled by a precise-point solver, and every
/// other mode by a single-point or kinematic one.
pub proof fn lemma_ppp_modes_go_to_ppp_solvers(mode: EngineMode)
    ensures
        crate::types::mode_is_ppp(mode) <==> (spec_processor_for(mode) is Ppp
            || spec_processor_for(mode) is PppInsFactorGraph),
{
}

/// Number of epochs the engine coasts on its prediction through a lack of
/// satellites before it decouples the position covariance.
pub const MAX_COAST: usize = 5;

/// What the engine does after a solver has handled an epoch.
#[derive(Clone, Copy, Debug, PartialEq)]
pub enum EpochResponse {
    /// The solver succeeded.
    Accept,
    /// The filter diverged beyond recovery: drop the state and fail.
    DropStateAndFail,
    /// Too many epochs without satellites: decouple the position and clock
    /// covariance so that the next fix can re-anchor, and carry on.
    DecoupleAndContinue,
    /// Too few satellites: carry on with the predicted state.
    Coast,
    /// Any other error is passed to the caller.
    Fail(EngineError),
}

/// The response and the new count of consecutive epochs without satellites.
#[derive(Clone, Copy, Debug, PartialEq)]
pub struct EpochDecision {
    pub response: EpochResponse,
    pub rejections: usize,
}

/// What `handle_epoch_result` decides, stated directly.
pub open spec fn spec_epoch_decision(err: Option<EngineError>, rejections: usize) -> EpochDecision {
    match err {
        None => EpochDecision { response: EpochResponse::Accept, rejections: 0 },
        Some(EngineError::StateDisappeared) => EpochDecision {
            response: EpochResponse::DropStateAndFail,
            rejections: 0,
        },
        Some(EngineError::InsufficientSatellites) => if rejections + 1 > MAX_COAST {
            EpochDecision { response: EpochResponse::DecoupleAndContinue, rejections: 0 }
        } else {
            EpochDecision { response: EpochResponse::Coast, rejections: (rejections + 1) as usize }
        },
        Some(e) => EpochDecision { response: EpochResponse::Fail(e), rejections: 0 },
    }
}

/// Decides how an epoch's solver result is handled, given the count of
/// consecutive epochs that lacked satellites.
pub fn handle_epoch_result(err: Option<EngineError>, rejections: usize) -> (d: EpochDecision)
    requires
        rejections < usize::MAX,
    ensures
        d == spec_epoch_decision(err, rejections),
{
    match err {
        None => EpochDecision { response: EpochResponse::Accept, rejections: 0 },
        Some(EngineError::StateDisappeared) => EpochDecision {
            response: EpochResponse::DropStateAndFail,
            rejections: 0,
        },
        Some(EngineError::InsufficientSatellites) => {
            let n = rejections + 1;
            if n > MAX_COAST {
                EpochDecision { response: EpochResponse::DecoupleAndContinue, rejections: 0 }
            } else {
                EpochDecision { response: EpochResponse::Coast, rejections: n }
            }
        },
        Some(e) => EpochDecision { response: EpochResponse::Fail(e), rejections: 0 },
    }
}

/// The result the engine returns for an epoch, after its response and given
/// whether a filter state exists afterwards.
pub open spec fn spec_epoch_outcome(response: EpochResponse, has_state: bool) -> Result<(), EngineError> {
    match response {
        EpochResponse::DropStateAndFail => Err(EngineError::StateDisappeared),
        EpochResponse::Fail(e) => Err(e),
        _ => if has_state {
            Ok(())
        } else {
            Err(EngineError::InsufficientSatellites)
        },
    }
}

/// Concludes an epoch: the error to report, or success when a state exists.
pub fn epoch_outcome(response: EpochResponse, has_state: bool) -> (r: Result<(), EngineError>)
    ensures
        r == spec_epoch_outcome(response, has_state),
{
    match response {
        EpochResponse::DropStateAndFail => Err(EngineError::StateDisappeared),
        EpochResponse::Fail(e) => Err(e),
        _ => if has_state {
            Ok(())
        } else {
            Err(EngineError::InsufficientSatellites)
        },
    }
}

/// The coasting count never exceeds `MAX_COAST`, and the engine decouples
/// exactly on the epoch that would exceed it.
pub proof fn lemma_coasting_bounded(err: Option<EngineError>, rejections: usize)
    requires
        rejections <= MAX_COAST,
    ensures
        spec_epoch_decision(err, rejections).rejections <= MAX_COAST,
        spec_epoch_decision(err, rejections).response is DecoupleAndContinue <==> (err == Some(
            EngineError::InsufficientSatellites) && rejections == MAX_COAST),
{
}

/// The whole of an epoch's error handling: a diverged filter drops its
/// state and fails with `StateDisappeared`; a lack of satellites coasts (or
/// decouples on the sixth epoch in a row) and succeeds when a state exists;
/// any other error is passed on; success clears the count and succeeds when
/// a state exists. `has_state` is whether a state exists after handling.
pub proof fn lemma_epoch_handling(err: Option<EngineError>, rejections: usize, has_state: bool)
    requires
        rejections < usize::MAX,
    ensures
        ({
            let d = spec_epoch_decision(err, rejections);
            let out = spec_epoch_outcome(d.response, has_state);
            let kept = if has_state {
                Ok::<(), EngineError>(())
            } else {
                Err::<(), EngineError>(EngineError::InsufficientSatellites)
            };
            &&& err == Some(EngineError::StateDisappeared) ==> (d.response is DropStateAndFail && d.rejections
                == 0 && out == Err::<(), EngineError>(EngineError::StateDisappeared))
            &&& err == Some(EngineError::InsufficientSatellites) ==> (d.rejections == (if rejections + 1
                > MAX_COAST {
                0
            } else {
                rejections + 1
            }) && out == kept)
            &&& (err matches Some(x) && x != EngineError::StateDisappeared && x
                != EngineError::InsufficientSatellites) ==> (d.rejections == 0 && out == Err::<(), EngineError>(
                err->0))
            &&& err is None ==> (d.rejections == 0 && out == kept)
        }),
{
}

/// Minimum number of satellites kept by the configured SNR mask before the
/// engine falls back to a relaxed mask.
pub const MIN_STRICT_SATELLITES: usize = 4;

/// Which observation mask an epoch is processed with.
#[derive(Clone, Copy, Debug, PartialEq, Eq, Structural)]
pub enum ObservationMask {
    /// The configured SNR mask.
    Strict,
    /// The relaxed urban-canyon mask (15 dB-Hz).
    Relaxed,
}

/// Keeps the configured mask when it leaves at least four satellites.
pub fn choose_observation_mask(strict_count: usize) -> (m: ObservationMask)
    ensures
        m == (if strict_count >= MIN_STRICT_SATELLITES {
            ObservationMask::Strict
        } else {
            ObservationMask::Relaxed
        }),
{
    if strict_count >= MIN_STRICT_SATELLITES {
        ObservationMask::Strict
    } else {
        ObservationMask::Relaxed
    }
}

/// Indices, in order, of the first `n` satellites whose constellation is
/// enabled (all satellites when no list is configured).
pub open spec fn spec_enabled_indices(
    sats: Seq<SatelliteId>,
    enabled: Option<Seq<Constellation>>,
    n: int,
) -> Seq<usize>
    decreases n,
{
    if n <= 0 {
        seq![]
    } else {
        let prev = spec_enabled_indices(sats, enabled, n - 1);
        let keep = match enabled {
            Some(list) => list.contains(sats[n - 1].constellation),
            None => true,
        };
        if keep {
            prev.push((n - 1) as usize)
        } else {
            prev
        }
    }
}

fn contains_constellation(list: &Vec<Constellation>, c: Constellation) -> (r: bool)
    ensures
        r == list@.contains(c),
{
    let mut i: usize = 0;
    while i < list.len()
        invariant
            i <= list@.len(),
            forall|t: int| 0 <= t < i ==> list@[t] != c,
        decreases list@.len() - i,
    {
        if list[i] == c {
            return true;
        }
        i = i + 1;
    }
    false
}

/// Selects the satellites of the enabled constellations.
pub fn enabled_satellites(sats: &Vec<SatelliteId>, enabled: &Option<Vec<Constellation>>) -> (r: Vec<
    usize,
>)
    ensures
        r@ == spec_enabled_indices(
            sats@,
            match enabled {
                Some(l) => Some(l@),
                None => None,
            },
            sats@.len() as int,
        ),
{
    let ghost en = match enabled {
        Some(l) => Some(l@),
        None => None,
    };
    let mut r: Vec<usize> = Vec::new();
    let mut i: usize = 0;
    while i < sats.len()
        invariant
            i <= sats@.len(),
            en == (match enabled {
                Some(l) => Some(l@),
                None => None,
            }),
            r@ == spec_enabled_indices(sats@, en, i as int),
        decreases sats@.len() - i,
    {
        let keep = match enabled {
            Some(list) => contains_constellation(list, sats[i].constellation),
            None => true,
        };
        if keep {
            r.push(i);
        }
        i = i + 1;
    }
    r
}

} // verus!
