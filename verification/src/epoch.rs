use vstd::prelude::*;
use crate::dispatch::Processor;
use crate::types::{EngineError, EngineMode, mode_is_inertial, mode_is_ppp, mode_is_tightly_coupled, mode_uses_imu_prediction};

verus! {

/// Whether a filter state must be created from the single point solution:
/// `Ok(false)` when one exists already, `Ok(true)` when it is created from
/// a successful single point solution, and an error when there is neither.
pub fn initial_state_plan(has_state: bool, spp_ok: bool) -> (r: Result<bool, EngineError>)
    ensures
        has_state ==> r == Ok::<bool, EngineError>(false),
        !has_state && spp_ok ==> r == Ok::<bool, EngineError>(true),
        !has_state && !spp_ok ==> r == Err::<bool, EngineError>(EngineError::InitialSppFailed),
{
    if has_state {
        Ok(false)
    } else if spp_ok {
        Ok(true)
    } else {
        Err(EngineError::InitialSppFailed)
    }
}

/// How the single point processor handles an epoch.
#[derive(Clone, Copy, Debug, PartialEq, Eq, Structural)]
pub enum SppRoute {
    /// Pure single point mode with a solution: take it as the epoch's state.
    EpochByEpoch,
    /// Pure single point mode without a solution: keep the state as the next
    /// seed and report `InitialSppFailed`.
    FailPreservingState,
    /// Filtered modes: update the filter with the solution.
    Filter,
}

/// Routes a single point epoch by mode and by whether a solution exists.
pub fn spp_route(mode: EngineMode, spp_ok: bool) -> (r: SppRoute)
    ensures
        r == (if mode is Spp {
            if spp_ok {
                SppRoute::EpochByEpoch
            } else {
                SppRoute::FailPreservingState
            }
        } else {
            SppRoute::Filter
        }),
{
    match mode {
        EngineMode::Spp => if spp_ok {
            SppRoute::EpochByEpoch
        } else {
            SppRoute::FailPreservingState
        },
        _ => SppRoute::Filter,
    }
}

/// Inter-system biases of a new state are seeded from the single point
/// solution except in precise point modes, where they start at zero.
pub fn seeds_isbs_from_spp(mode: EngineMode) -> (b: bool)
    ensures
        b == !mode_is_ppp(mode),
{
    !mode.is_ppp()
}

/// Whether the buffered inertial samples propagate the state: in modes that
/// predict with them, once the inertial solution is aligned.
pub fn imu_samples_used(mode: EngineMode, ins_aligned: bool) -> (b: bool)
    ensures
        b == (mode_uses_imu_prediction(mode) && ins_aligned),
{
    mode.uses_imu_prediction() && ins_aligned
}

/// Whether zero-velocity / non-holonomic constraints are applied: enabled,
/// in an inertial mode, with an aligned inertial solution.
pub fn nhc_applies(enable_nhc: bool, mode: EngineMode, ins_aligned: bool) -> (b: bool)
    ensures
        b == (enable_nhc && mode_is_inertial(mode) && ins_aligned),
{
    enable_nhc && mode.is_inertial() && ins_aligned
}

/// Whether the time-differenced carrier-phase step runs: enabled, with
/// matched observations from the last update and a known base position.
pub fn tdcp_runs(enable_tdcp: bool, n_last_matched: usize, has_base_coord: bool) -> (b: bool)
    ensures
        b == (enable_tdcp && n_last_matched > 0 && has_base_coord),
{
    enable_tdcp && n_last_matched > 0 && has_base_coord
}

/// Number of consecutive fast epochs needed for kinematic alignment.
pub const ALIGNMENT_EPOCHS: usize = 5;

/// Whether kinematic alignment of the inertial solution may be attempted:
/// not yet aligned, in a tightly coupled mode, with inertial samples in the
/// last epoch.
pub fn alignment_allowed(ins_aligned: bool, mode: EngineMode, last_imu_nonempty: bool) -> (b: bool)
    ensures
        b == (!ins_aligned && mode_is_tightly_coupled(mode) && last_imu_nonempty),
{
    !ins_aligned && mode.is_tightly_coupled() && last_imu_nonempty
}

/// Whether the vehicle has moved fast enough for long enough to align:
/// fast now, and fast in each of the last five stored epochs (`history_fast`
/// is in storage order, oldest first).
pub fn sustained_motion(current_fast: bool, history_fast: &Vec<bool>) -> (b: bool)
    ensures
        b == (current_fast && history_fast@.len() >= ALIGNMENT_EPOCHS && forall|t: int|
            history_fast@.len() - ALIGNMENT_EPOCHS <= t < history_fast@.len() ==> #[trigger] history_fast@[t]),
{
    if !current_fast || history_fast.len() < ALIGNMENT_EPOCHS {
        return false;
    }
    let n = history_fast.len();
    let mut i: usize = n - ALIGNMENT_EPOCHS;
    while i < n
        invariant
            n == history_fast@.len(),
            n >= ALIGNMENT_EPOCHS,
            n - ALIGNMENT_EPOCHS <= i <= n,
            forall|t: int| n - ALIGNMENT_EPOCHS <= t < i ==> #[trigger] history_fast@[t],
        decreases n - i,
    {
        if !history_fast[i] {
            return false;
        }
        i = i + 1;
    }
    true
}

/// The pure GNSS mode a loosely coupled processor runs internally before
/// fusing its solution into the inertial filter.
pub fn inner_gnss_mode(p: Processor) -> (m: Option<EngineMode>)
    ensures
        m == (match p {
            Processor::RtkLooselyCoupled => Some(EngineMode::Rtk),
            Processor::SppLooselyCoupled => Some(EngineMode::Spp),
            _ => None,
        }),
{
    match p {
        Processor::RtkLooselyCoupled => Some(EngineMode::Rtk),
        Processor::SppLooselyCoupled => Some(EngineMode::Spp),
        _ => None,
    }
}

/// The configured mode once a loosely coupled processor's inner GNSS run
/// has returned. The RTK processor puts the configured mode back whatever
/// the inner run returned; the SPP processor puts it back only after an
/// inner success, so an inner failure leaves the engine in SPP mode.
/// Other processors do not switch the mode.
pub fn mode_after_inner_run(p: Processor, configured: EngineMode, inner_ok: bool) -> (m: EngineMode)
    ensures
        m == (match p {
            Processor::SppLooselyCoupled => if inner_ok {
                configured
            } else {
                EngineMode::Spp
            },
            _ => configured,
        }),
{
    match p {
        Processor::SppLooselyCoupled => if inner_ok {
            configured
        } else {
            EngineMode::Spp
        },
        _ => configured,
    }
}

} // verus!
