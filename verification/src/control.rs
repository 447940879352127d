use vstd::prelude::*;
use crate::types::{EngineError, EngineMode, mode_is_tightly_coupled, mode_seeds_from_spp};
use vstd::arithmetic::div_mod::{lemma_add_mod_noop, lemma_mod_self_0, lemma_small_mod};

verus! {

/// Consecutive rejections after which single-point and loosely coupled
/// inertial filters are hard-reset to the GNSS solution.
pub const INS_MAX_REJECTIONS: usize = 5;

/// Consecutive rejections after which the tightly coupled single-point
/// filter is re-seeded from single point positioning.
pub const SPP_TIGHT_MAX_REJECTIONS: usize = 10;

/// The rejection count after an update and whether the filter is reset.
#[derive(Clone, Copy, Debug, PartialEq, Eq)]
pub struct RejectionStep {
    pub count: usize,
    pub reset: bool,
}

/// What `rejection_step` decides, stated directly.
pub open spec fn spec_rejection_step(count: usize, rejected: bool, limit: usize) -> RejectionStep {
    if !rejected {
        RejectionStep { count: 0, reset: false }
    } else if count + 1 > limit {
        RejectionStep { count: 0, reset: true }
    } else {
        RejectionStep { count: (count + 1) as usize, reset: false }
    }
}

/// Counts consecutive rejected updates: an accepted update clears the
/// count; a rejection increments it, and once the count exceeds `limit`
/// the filter is reset and the count cleared; until then the filter rides
/// through on its prediction.
pub fn rejection_step(count: usize, rejected: bool, limit: usize) -> (r: RejectionStep)
    requires
        count < usize::MAX,
    ensures
        r == spec_rejection_step(count, rejected, limit),
{
    if !rejected {
        RejectionStep { count: 0, reset: false }
    } else {
        let n = count + 1;
        if n > limit {
            RejectionStep { count: 0, reset: true }
        } else {
            RejectionStep { count: n, reset: false }
        }
    }
}

/// Count after `k` further rejections in a row, starting from `count`.
pub open spec fn rejections_after(count: usize, k: nat, limit: usize) -> RejectionStep
    decreases k,
{
    if k == 0 {
        RejectionStep { count, reset: false }
    } else {
        let prev = rejections_after(count, (k - 1) as nat, limit);
        spec_rejection_step(prev.count, true, limit)
    }
}

/// Starting from a clear count, the first `limit` rejections in a row only
/// count up, and the next one resets the filter.
pub proof fn lemma_reset_after_limit_plus_one(limit: usize, k: nat)
    requires
        limit < usize::MAX,
        k <= limit + 1,
    ensures
        k <= limit ==> rejections_after(0, k, limit) == (RejectionStep { count: k as usize, reset: false }),
        k == limit + 1 ==> rejections_after(0, k, limit).reset,
    decreases k,
{
    if k > 0 {
        lemma_reset_after_limit_plus_one(limit, (k - 1) as nat);
    }
}

/// A count that starts within the limit stays within it.
pub proof fn lemma_rejection_count_bounded(count: usize, rejected: bool, limit: usize)
    requires
        count <= limit,
    ensures
        spec_rejection_step(count, rejected, limit).count <= limit,
        spec_rejection_step(count, rejected, limit).reset ==> rejected && count == limit,
{
}

/// Rejections since the last accepted update (all of them when none was
/// accepted), over a history of update outcomes (`true` = rejected).
pub open spec fn trailing_rejections(rejected: Seq<bool>) -> nat
    decreases rejected.len(),
{
    if rejected.len() == 0 {
        0
    } else if rejected.last() {
        trailing_rejections(rejected.drop_last()) + 1
    } else {
        0
    }
}

/// Whether any update of the history was accepted.
pub open spec fn any_accepted(rejected: Seq<bool>) -> bool
    decreases rejected.len(),
{
    rejected.len() > 0 && (!rejected.last() || any_accepted(rejected.drop_last()))
}

/// The count after a history of update outcomes, starting from `count`.
pub open spec fn count_after(count: usize, rejected: Seq<bool>, limit: usize) -> usize
    decreases rejected.len(),
{
    if rejected.len() == 0 {
        count
    } else {
        spec_rejection_step(count_after(count, rejected.drop_last(), limit), rejected.last(), limit).count
    }
}

proof fn lemma_mod_succ(x: nat, m: nat)
    requires
        m > 0,
    ensures
        (x + 1) % m == (if x % m + 1 == m {
            0
        } else {
            x % m + 1
        }),
{
    lemma_add_mod_noop(x as int, 1, m as int);
    if m == 1 {
        lemma_mod_self_0(1);
        assert((x + 1) % 1 == 0) by {
            lemma_add_mod_noop(x as int, 1, 1);
        }
    } else {
        lemma_small_mod(1, m);
        if x % m + 1 == m {
            lemma_mod_self_0(m as int);
        } else {
            lemma_small_mod((x % m + 1) as nat, m);
        }
    }
}

/// Across accepted and rejected updates the count is the number of
/// rejections since the last accepted update (added to the starting count
/// when none was accepted), wrapping to zero at each reset: every
/// `limit + 1` rejections in a row end in a reset. An accepted update
/// always leaves the count at zero.
pub proof fn lemma_rejection_history(count: usize, rejected: Seq<bool>, limit: usize)
    requires
        count <= limit,
        limit < usize::MAX,
    ensures
        count_after(count, rejected, limit) as nat == (if any_accepted(rejected) {
            trailing_rejections(rejected)
        } else {
            count as nat + trailing_rejections(rejected)
        }) % (limit + 1) as nat,
        rejected.len() > 0 && !rejected.last() ==> count_after(count, rejected, limit) == 0,
    decreases rejected.len(),
{
    let m = (limit + 1) as nat;
    if rejected.len() == 0 {
        lemma_small_mod(count as nat, m);
    } else {
        let prev = rejected.drop_last();
        lemma_rejection_history(count, prev, limit);
        let p = count_after(count, prev, limit);
        let x: nat = if any_accepted(prev) {
            trailing_rejections(prev)
        } else {
            count as nat + trailing_rejections(prev)
        };
        assert(p as nat == x % m);
        if rejected.last() {
            lemma_mod_succ(x, m);
            assert(p <= limit) by {
                vstd::arithmetic::div_mod::lemma_mod_bound(x as int, m as int);
            }
        } else {
            lemma_small_mod(0, m);
        }
    }
}

/// Number of rejections during which the kinematic filter's covariance is
/// still inflated.
pub const RTK_INFLATE_REJECTIONS: usize = 5;

/// A rejected kinematic update: the new count and whether the covariance
/// is still inflated for it.
#[derive(Clone, Copy, Debug, PartialEq, Eq)]
pub struct RtkRejection {
    pub count: usize,
    pub inflate: bool,
}

/// Registers a rejected kinematic update: the count goes up by one and the
/// covariance is inflated only for the first five rejections, so that the
/// position variance does not run away while coasting.
pub fn register_rtk_rejection(count: usize) -> (r: RtkRejection)
    requires
        count < usize::MAX,
    ensures
        r.count == count + 1,
        r.inflate == (count + 1 <= RTK_INFLATE_REJECTIONS),
{
    let n = count + 1;
    RtkRejection { count: n, inflate: n <= RTK_INFLATE_REJECTIONS }
}

/// Whether a rejected kinematic update ends in a reset to the single point
/// solution, and the count afterwards.
#[derive(Clone, Copy, Debug, PartialEq, Eq)]
pub struct RtkResetDecision {
    pub reset: bool,
    pub count: usize,
}

/// After a rejection (counted into `count`): extreme position variance
/// resets the filter to the single point solution when one is available;
/// otherwise reaching `max_rejections` does. A reset clears the count.
pub fn rtk_rejection_reset(
    count: usize,
    extreme_divergence: bool,
    spp_available: bool,
    max_rejections: usize,
) -> (r: RtkResetDecision)
    ensures
        r.reset == (spp_available && (extreme_divergence || count >= max_rejections)),
        r.count == (if r.reset {
            0
        } else {
            count
        }),
{
    if extreme_divergence {
        if spp_available {
            RtkResetDecision { reset: true, count: 0 }
        } else {
            RtkResetDecision { reset: false, count }
        }
    } else if count >= max_rejections {
        if spp_available {
            RtkResetDecision { reset: true, count: 0 }
        } else {
            RtkResetDecision { reset: false, count }
        }
    } else {
        RtkResetDecision { reset: false, count }
    }
}

/// What an accepted kinematic update does to the filter.
#[derive(Clone, Copy, Debug, PartialEq, Eq)]
pub struct RtkAcceptance {
    /// Consecutive rejections after the update: always zero.
    pub count: usize,
    /// Whether the filter is reset to the single point solution first.
    pub reset: bool,
}

/// An accepted kinematic update clears the rejection count; an extreme
/// position variance resets the filter to the single point solution first
/// when one is available.
pub fn rtk_acceptance(count: usize, extreme_divergence: bool, spp_available: bool) -> (r: RtkAcceptance)
    ensures
        r.count == 0,
        r.reset == (extreme_divergence && spp_available),
{
    RtkAcceptance { count: 0, reset: extreme_divergence && spp_available }
}

/// Outcome of one kinematic update, with the flags its handling reads.
#[derive(Clone, Copy, Debug, PartialEq, Eq)]
pub enum RtkUpdateEvent {
    Accepted { extreme_divergence: bool, spp_available: bool },
    Rejected { extreme_divergence: bool, spp_available: bool },
}

/// Rejection count after one update: `rtk_acceptance` for an accepted
/// one, `register_rtk_rejection` then `rtk_rejection_reset` for a rejected
/// one.
pub open spec fn rtk_count_step(count: usize, ev: RtkUpdateEvent, max_rejections: usize) -> usize {
    match ev {
        RtkUpdateEvent::Accepted { .. } => 0,
        RtkUpdateEvent::Rejected { extreme_divergence, spp_available } => {
            let c = (count + 1) as usize;
            if spp_available && (extreme_divergence || c >= max_rejections) {
                0
            } else {
                c
            }
        },
    }
}

/// Rejection count after a history of updates.
pub open spec fn rtk_count_after(count: usize, events: Seq<RtkUpdateEvent>, max_rejections: usize) -> usize
    decreases events.len(),
{
    if events.len() == 0 {
        count
    } else {
        rtk_count_step(rtk_count_after(count, events.drop_last(), max_rejections), events.last(), max_rejections)
    }
}

/// Rejected updates since the last accepted one (all when none was).
pub open spec fn rtk_trailing_rejections(events: Seq<RtkUpdateEvent>) -> nat
    decreases events.len(),
{
    if events.len() == 0 {
        0
    } else if events.last() is Rejected {
        rtk_trailing_rejections(events.drop_last()) + 1
    } else {
        0
    }
}

/// Whether any update of the history was accepted.
pub open spec fn rtk_any_accepted(events: Seq<RtkUpdateEvent>) -> bool
    decreases events.len(),
{
    events.len() > 0 && (events.last() is Accepted || rtk_any_accepted(events.drop_last()))
}

/// Whether no rejected update of the history had a single point solution
/// to reset to.
pub open spec fn rtk_no_reset_possible(events: Seq<RtkUpdateEvent>) -> bool {
    forall|i: int| 0 <= i < events.len() ==> (#[trigger] events[i] matches RtkUpdateEvent::Rejected {
        spp_available,
        ..
    } ==> !spp_available)
}

/// Across accepted and rejected kinematic updates, an accepted update
/// leaves the count at zero, the count never exceeds the rejections since
/// the last accepted update (plus the starting count when none was), and
/// equals them when no rejection could reset the filter.
pub proof fn lemma_rtk_rejection_history(count: usize, events: Seq<RtkUpdateEvent>, max_rejections: usize)
    requires
        count + events.len() <= usize::MAX,
    ensures
        events.len() > 0 && events.last() is Accepted ==> rtk_count_after(count, events, max_rejections) == 0,
        rtk_count_after(count, events, max_rejections) <= (if rtk_any_accepted(events) {
            rtk_trailing_rejections(events)
        } else {
            count as nat + rtk_trailing_rejections(events)
        }),
        rtk_no_reset_possible(events) ==> rtk_count_after(count, events, max_rejections) == (if rtk_any_accepted(events) {
            rtk_trailing_rejections(events)
        } else {
            count as nat + rtk_trailing_rejections(events)
        }),
    decreases events.len(),
{
    if events.len() > 0 {
        let prev = events.drop_last();
        lemma_rtk_rejection_history(count, prev, max_rejections);
        if rtk_no_reset_possible(events) {
            assert forall|i: int| 0 <= i < prev.len() implies (#[trigger] prev[i] matches RtkUpdateEvent::Rejected {
                spp_available,
                ..
            } ==> !spp_available) by {
                assert(prev[i] == events[i]);
            }
            assert(events[events.len() - 1] == events.last());
        }
        assert(rtk_trailing_rejections(prev) <= prev.len()) by {
            lemma_trailing_bounded(prev);
        }
    }
}

proof fn lemma_trailing_bounded(events: Seq<RtkUpdateEvent>)
    ensures
        rtk_trailing_rejections(events) <= events.len(),
    decreases events.len(),
{
    if events.len() > 0 {
        lemma_trailing_bounded(events.drop_last());
    }
}

/// Epoch count below which a young filter is re-seeded from the single
/// point solution.
pub const YOUNG_FILTER_EPOCHS: usize = 3;

/// Whether a young filter is re-seeded from the single point solution:
/// in modes that seed from it, when a single point solution exists and
/// fewer than three epochs have been processed.
pub fn needs_spp_reseed(mode: EngineMode, had_imu_data: bool, spp_available: bool, epoch_count: usize) -> (r:
    bool)
    ensures
        r == (mode_seeds_from_spp(mode, had_imu_data) && spp_available && epoch_count
            < YOUNG_FILTER_EPOCHS),
{
    mode.seeds_from_spp(had_imu_data) && spp_available && epoch_count < YOUNG_FILTER_EPOCHS
}

/// Minimum number of measurements an update must keep to count as accepted.
pub const MIN_VALID_MEASUREMENTS: usize = 3;

/// A single-point position update is refused outright when the aligned,
/// tightly coupled filter disagrees with it beyond the consistency limit.
pub fn spp_precheck_rejects(mode: EngineMode, ins_aligned: bool, exceeds_consistency: bool) -> (r: bool)
    ensures
        r == (mode_is_tightly_coupled(mode) && ins_aligned && exceeds_consistency),
{
    mode.is_tightly_coupled() && ins_aligned && exceeds_consistency
}

/// An update counts as rejected when it failed (`None`) or kept fewer than
/// three measurements.
pub fn update_rejected(valid_count: Option<usize>) -> (r: bool)
    ensures
        r == (match valid_count {
            Some(n) => n < MIN_VALID_MEASUREMENTS,
            None => true,
        }),
{
    match valid_count {
        Some(n) => n < MIN_VALID_MEASUREMENTS,
        None => true,
    }
}

/// Minimum number of matched rover/base satellites for a kinematic update.
pub const MIN_MATCHED_OBS: usize = 5;

/// What an epoch's observations lead to in the kinematic processor.
#[derive(Clone, Copy, Debug, PartialEq, Eq, Structural)]
pub enum ObservationPlan {
    /// Run the double-difference update.
    RtkUpdate,
    /// Too few matched satellites: count a rejection.
    CountRejection,
    /// No usable base: fall back to the single point position.
    SppFallback,
    /// Nothing to update with.
    Idle,
}

/// The plan for an epoch's observations with the filter's counters after it.
#[derive(Clone, Copy, Debug, PartialEq)]
pub struct ObservationStep {
    pub outcome: Result<ObservationPlan, EngineError>,
    /// Epochs processed against a base.
    pub epoch_count: usize,
    /// Consecutive rejected updates.
    pub rejections: usize,
}

/// What `plan_observation_update` decides, stated directly.
pub open spec fn spec_observation_step(
    has_state: bool,
    base_valid: bool,
    base_position_known: bool,
    matched_count: usize,
    spp_available: bool,
    epoch_count: usize,
    rejections: usize,
) -> ObservationStep {
    if !has_state {
        ObservationStep { outcome: Err(EngineError::StateDisappeared), epoch_count, rejections }
    } else if base_valid {
        let e = (epoch_count + 1) as usize;
        if !base_position_known {
            ObservationStep { outcome: Err(EngineError::MissingBasePosition), epoch_count: e, rejections }
        } else if matched_count >= MIN_MATCHED_OBS {
            ObservationStep { outcome: Ok(ObservationPlan::RtkUpdate), epoch_count: e, rejections }
        } else {
            ObservationStep {
                outcome: Ok(ObservationPlan::CountRejection),
                epoch_count: e,
                rejections: (rejections + 1) as usize,
            }
        }
    } else if spp_available {
        ObservationStep { outcome: Ok(ObservationPlan::SppFallback), epoch_count, rejections }
    } else {
        ObservationStep { outcome: Ok(ObservationPlan::Idle), epoch_count, rejections }
    }
}

/// Plans the kinematic update of an epoch. Without a filter state the epoch
/// fails with `StateDisappeared`. With a recent base the epoch is counted;
/// the configured base position must then be known (else
/// `MissingBasePosition`, after counting), and the update runs when at
/// least five satellites match, while fewer count a rejection. Without a
/// recent base the single point position is used when there is one.
pub fn plan_observation_update(
    has_state: bool,
    base_valid: bool,
    base_position_known: bool,
    matched_count: usize,
    spp_available: bool,
    epoch_count: usize,
    rejections: usize,
) -> (r: ObservationStep)
    requires
        epoch_count < usize::MAX,
        rejections < usize::MAX,
    ensures
        r == spec_observation_step(
            has_state,
            base_valid,
            base_position_known,
            matched_count,
            spp_available,
            epoch_count,
            rejections,
        ),
{
    if !has_state {
        return ObservationStep { outcome: Err(EngineError::StateDisappeared), epoch_count, rejections };
    }
    if base_valid {
        let e = epoch_count + 1;
        if !base_position_known {
            ObservationStep { outcome: Err(EngineError::MissingBasePosition), epoch_count: e, rejections }
        } else if matched_count >= MIN_MATCHED_OBS {
            ObservationStep { outcome: Ok(ObservationPlan::RtkUpdate), epoch_count: e, rejections }
        } else {
            ObservationStep { outcome: Ok(ObservationPlan::CountRejection), epoch_count: e, rejections: rejections + 1 }
        }
    } else if spp_available {
        ObservationStep { outcome: Ok(ObservationPlan::SppFallback), epoch_count, rejections }
    } else {
        ObservationStep { outcome: Ok(ObservationPlan::Idle), epoch_count, rejections }
    }
}

/// Fewest pseudorange measurements (or satellite pairs) needed before the
/// pseudorange-based validations of a fix pass judgement.
pub const MIN_PR_VALIDATION: usize = 4;

/// Whether enough pseudorange measurements are available to judge a fix by
/// its pseudorange residuals; with fewer the fix passes that validation.
pub fn pr_residuals_judged(count: usize) -> (b: bool)
    ensures
        b == (count >= MIN_PR_VALIDATION),
{
    count >= MIN_PR_VALIDATION
}

/// Fewest stored epochs a satellite pair's pseudorange window needs before
/// the multi-epoch checks use it.
pub const MIN_PR_WINDOW_SAMPLES: usize = 20;

/// Whether a satellite pair's pseudorange window holds enough epochs to
/// take part in the multi-epoch pseudorange checks; pairs with fewer are
/// skipped.
pub fn pr_pair_has_enough_samples(count: usize) -> (b: bool)
    ensures
        b == (count >= MIN_PR_WINDOW_SAMPLES),
{
    count >= MIN_PR_WINDOW_SAMPLES
}

/// The multi-epoch pseudorange verdict over `checked` pairs of which
/// `failed` failed.
pub open spec fn spec_pr_verdict(checked: int, failed: int) -> bool {
    checked < MIN_PR_VALIDATION || 2 * (checked - failed) >= checked
}

/// With fewer than four pairs the fix always passes; otherwise it passes
/// exactly when at most half of the pairs failed. Among the same pairs,
/// more failures never turn a failing verdict into a passing one.
pub proof fn lemma_pr_verdict_law(checked: int, failed1: int, failed2: int)
    requires
        0 <= failed1 <= failed2 <= checked,
    ensures
        checked < 4 ==> spec_pr_verdict(checked, failed1),
        checked >= 4 ==> (spec_pr_verdict(checked, failed1) <==> 2 * failed1 <= checked),
        spec_pr_verdict(checked, failed2) ==> spec_pr_verdict(checked, failed1),
{
}

/// Verdict of the multi-epoch pseudorange validation from the number of
/// satellite pairs checked and failed: with fewer than four pairs the fix
/// passes; otherwise it passes when at least half of the pairs pass.
pub fn multiepoch_pr_verdict(pairs_checked: usize, pairs_failed: usize) -> (pass: bool)
    requires
        pairs_failed <= pairs_checked,
    ensures
        pass == spec_pr_verdict(pairs_checked as int, pairs_failed as int),
        pairs_checked < 4 ==> pass,
        pairs_checked >= 4 ==> (pass <==> 2 * pairs_failed <= pairs_checked),
{
    if pairs_checked < MIN_PR_VALIDATION {
        return true;
    }
    let passed = pairs_checked - pairs_failed;
    passed >= pairs_checked - passed
}

/// The validations an ambiguity-resolution fix goes through, in order.
#[derive(Clone, Copy, Debug, PartialEq, Eq, Structural)]
pub enum ArCheck {
    /// The fixed position may not jump more than the allowed distance.
    PositionJump,
    /// The jump must be consistent with the inertial velocity.
    InertialMotion,
    /// The fix may not degrade the pseudorange fit.
    PseudorangeResiduals,
    /// The fix must agree with the two-epoch factor graph.
    FactorGraph,
    /// The fix must agree with the two-epoch smoothed position.
    GeometrySmoother,
}

/// The validation sequence of a fix: the inertial check only when enabled,
/// the smoother check only when a base position and time are known.
pub open spec fn spec_ar_checks(ins_validation: bool, base_available: bool) -> Seq<ArCheck> {
    let first = if ins_validation {
        seq![ArCheck::PositionJump, ArCheck::InertialMotion]
    } else {
        seq![ArCheck::PositionJump]
    };
    let mid = first + seq![ArCheck::PseudorangeResiduals, ArCheck::FactorGraph];
    if base_available {
        mid.push(ArCheck::GeometrySmoother)
    } else {
        mid
    }
}

/// Lists the validations a fix has to pass, in the order they run.
pub fn ar_checks(ins_validation: bool, base_available: bool) -> (r: Vec<ArCheck>)
    ensures
        r@ == spec_ar_checks(ins_validation, base_available),
        r@[0] == ArCheck::PositionJump,
        r@.contains(ArCheck::InertialMotion) <==> ins_validation,
        r@.contains(ArCheck::GeometrySmoother) <==> base_available,
        r@.contains(ArCheck::PseudorangeResiduals),
        r@.contains(ArCheck::FactorGraph),
        forall|a: int, b: int| 0 <= a < b < r@.len() ==> r@[a] != r@[b],
{
    proof {
        lemma_ar_checks_law(ins_validation, base_available);
    }
    let mut r: Vec<ArCheck> = Vec::new();
    r.push(ArCheck::PositionJump);
    if ins_validation {
        r.push(ArCheck::InertialMotion);
    }
    r.push(ArCheck::PseudorangeResiduals);
    r.push(ArCheck::FactorGraph);
    if base_available {
        r.push(ArCheck::GeometrySmoother);
    }
    proof {
        assert(r@ =~= spec_ar_checks(ins_validation, base_available));
    }
    r
}

/// The validation sequence: the position-jump check comes first, the
/// inertial check runs exactly when inertial validation is enabled (and
/// right after it), the smoother check runs exactly when a base position
/// and time are known (and last), each independently of the other flag;
/// the pseudorange and factor-graph checks always run, in that order, and
/// no check runs twice.
pub proof fn lemma_ar_checks_law(ins_validation: bool, base_available: bool)
    ensures
        ({
            let s = spec_ar_checks(ins_validation, base_available);
            &&& s.len() == 3 + (if ins_validation { 1int } else { 0int }) + (if base_available { 1int } else { 0int })
            &&& s[0] == ArCheck::PositionJump
            &&& s.contains(ArCheck::InertialMotion) <==> ins_validation
            &&& ins_validation ==> s[1] == ArCheck::InertialMotion
            &&& s.contains(ArCheck::GeometrySmoother) <==> base_available
            &&& base_available ==> s[s.len() - 1] == ArCheck::GeometrySmoother
            &&& s.contains(ArCheck::PseudorangeResiduals)
            &&& s.contains(ArCheck::FactorGraph)
            &&& forall|a: int, b: int|
                0 <= a < b < s.len() && s[a] == ArCheck::FactorGraph ==> s[b] != ArCheck::PseudorangeResiduals
            &&& forall|a: int, b: int| 0 <= a < b < s.len() ==> s[a] != s[b]
        }),
{
    let s = spec_ar_checks(ins_validation, base_available);
    if ins_validation {
        if base_available {
            assert(s =~= seq![ArCheck::PositionJump, ArCheck::InertialMotion, ArCheck::PseudorangeResiduals, ArCheck::FactorGraph, ArCheck::GeometrySmoother]);
            assert(s[4] == ArCheck::GeometrySmoother);
            assert(s[2] == ArCheck::PseudorangeResiduals);
        } else {
            assert(s =~= seq![ArCheck::PositionJump, ArCheck::InertialMotion, ArCheck::PseudorangeResiduals, ArCheck::FactorGraph]);
            assert(s[2] == ArCheck::PseudorangeResiduals);
            assert(!s.contains(ArCheck::GeometrySmoother));
        }
        assert(s[1] == ArCheck::InertialMotion);
        assert(s[3] == ArCheck::FactorGraph);
    } else {
        if base_available {
            assert(s =~= seq![ArCheck::PositionJump, ArCheck::PseudorangeResiduals, ArCheck::FactorGraph, ArCheck::GeometrySmoother]);
            assert(s[3] == ArCheck::GeometrySmoother);
        } else {
            assert(s =~= seq![ArCheck::PositionJump, ArCheck::PseudorangeResiduals, ArCheck::FactorGraph]);
            assert(!s.contains(ArCheck::GeometrySmoother));
        }
        assert(s[1] == ArCheck::PseudorangeResiduals);
        assert(s[2] == ArCheck::FactorGraph);
        assert(!s.contains(ArCheck::InertialMotion));
    }
}

/// Index of the first failed validation among the outcomes, if any.
pub open spec fn first_failure(outcomes: Seq<bool>) -> Option<int> {
    crate::ambiguity::first_index(outcomes, false)
}

/// What becomes of the filter's fix after ambiguity resolution.
#[derive(Clone, Copy, Debug, PartialEq, Eq, Structural)]
pub enum FixUpdate {
    /// Adopt the new fix.
    Accept,
    /// Reject the new fix and clear the fix state.
    Reject,
    /// Resolution failed this epoch; keep the previous fix.
    KeepPrevious,
    /// Resolution failed and there was no fix: drop any stale candidate.
    ClearCandidate,
}

/// Decides the fix after resolution. `outcomes` are the results of the
/// validations run in order, stopping at the first failure; the fix is
/// accepted only when none failed. When resolution failed, a held fix is
/// kept: it is cleared only by a cycle slip.
pub fn decide_fix(resolved: bool, outcomes: &Vec<bool>, was_fixed: bool) -> (r: FixUpdate)
    ensures
        resolved ==> r == (if first_failure(outcomes@) is None {
            FixUpdate::Accept
        } else {
            FixUpdate::Reject
        }),
        !resolved ==> r == (if was_fixed {
            FixUpdate::KeepPrevious
        } else {
            FixUpdate::ClearCandidate
        }),
        r == FixUpdate::Accept <==> resolved && forall|t: int| 0 <= t < outcomes@.len() ==> #[trigger] outcomes@[t],
        r == FixUpdate::Reject <==> resolved && exists|t: int| 0 <= t < outcomes@.len() && !#[trigger] outcomes@[t],
        r == FixUpdate::KeepPrevious ==> !resolved && was_fixed,
{
    proof {
        crate::ambiguity::lemma_first_index(outcomes@, false);
    }
    if resolved {
        let mut i: usize = 0;
        proof {
            crate::ambiguity::lemma_first_index(outcomes@, false);
        }
        while i < outcomes.len()
            invariant
                resolved,
                i <= outcomes@.len(),
                forall|t: int| 0 <= t < i ==> outcomes@[t] != false,
                match first_failure(outcomes@) {
                    Some(j) => 0 <= j < outcomes@.len() && outcomes@[j] == false,
                    None => forall|t: int| 0 <= t < outcomes@.len() ==> outcomes@[t] != false,
                },
            decreases outcomes@.len() - i,
        {
            if !outcomes[i] {
                return FixUpdate::Reject;
            }
            i = i + 1;
        }
        FixUpdate::Accept
    } else if was_fixed {
        FixUpdate::KeepPrevious
    } else {
        FixUpdate::ClearCandidate
    }
}

} // verus!
