use vstd::prelude::*;
use crate::types::{EngineError, EngineMode};

verus! {

/// State indices frozen in the backward (smoothing) pass: the GLONASS,
/// Galileo and BeiDou inter-system biases. The clock bias (15) needs no
/// freeze, being white noise; clock drift (19) and tropospheric delay (20)
/// are smoothed.
pub const FROZEN_BACKWARD_INDICES: [usize; 3] = [16, 17, 18];

/// Size of the core (non-ambiguity) part of the filter state.
pub const CORE_STATE_SIZE: usize = 21;

/// Whether a state index is one of the frozen ones.
pub open spec fn spec_is_frozen(i: int) -> bool {
    16 <= i <= 18
}

/// The frozen set is exactly the three inter-system biases: the clock bias,
/// clock drift and tropospheric delay are never frozen.
pub proof fn lemma_frozen_set()
    ensures
        forall|t: int| 0 <= t < 3 ==> spec_is_frozen(#[trigger] FROZEN_BACKWARD_INDICES@[t] as int),
        forall|i: int| spec_is_frozen(i) ==> exists|t: int| 0 <= t < 3 && FROZEN_BACKWARD_INDICES@[t] == i,
        !spec_is_frozen(15),
        !spec_is_frozen(19),
        !spec_is_frozen(20),
{
    assert forall|i: int| spec_is_frozen(i) implies exists|t: int| 0 <= t < 3 && FROZEN_BACKWARD_INDICES@[t] == i by {
        assert(FROZEN_BACKWARD_INDICES@[i - 16] == i);
    }
}

/// No frozen state is ever among the states whose covariance is inverted.
pub proof fn lemma_active_never_frozen(positive: Seq<bool>, n: int)
    requires
        n <= usize::MAX,
    ensures
        forall|t: int| 0 <= t < spec_active(positive, n).len() ==> !spec_is_frozen(#[trigger] spec_active(positive, n)[t] as int),
    decreases n,
{
    if n > 0 {
        lemma_active_never_frozen(positive, n - 1);
        let prev = spec_active(positive, n - 1);
        let cur = spec_active(positive, n);
        if !spec_is_frozen(n - 1) && positive[n - 1] {
            assert(cur == prev.push((n - 1) as usize));
            assert(((n - 1) as usize) as int == n - 1);
            assert forall|t: int| 0 <= t < cur.len() implies !spec_is_frozen(#[trigger] cur[t] as int) by {
                if t < prev.len() {
                    assert(cur[t] == prev[t]);
                }
            }
        }
    }
}

/// Whether state index `i` is frozen in the backward pass.
pub fn is_frozen_index(i: usize) -> (r: bool)
    ensures
        r == spec_is_frozen(i as int),
        r == (i == FROZEN_BACKWARD_INDICES[0] || i == FROZEN_BACKWARD_INDICES[1] || i
            == FROZEN_BACKWARD_INDICES[2]),
{
    let f = FROZEN_BACKWARD_INDICES;
    i == f[0] || i == f[1] || i == f[2]
}

/// Whether the backward pass runs at all: it needs at least one epoch, and
/// single point positioning is returned unsmoothed.
pub fn ppk_should_smooth(n_epochs: usize, mode: EngineMode) -> (r: Result<bool, EngineError>)
    ensures
        n_epochs == 0 ==> r == Err::<bool, EngineError>(EngineError::NoObservations),
        n_epochs > 0 ==> r == Ok::<bool, EngineError>(!(mode is Spp)),
{
    if n_epochs == 0 {
        Err(EngineError::NoObservations)
    } else {
        match mode {
            EngineMode::Spp => Ok(false),
            _ => Ok(true),
        }
    }
}

/// The epochs the backward pass visits, latest first: `n-2` down to `0`.
pub fn backward_order(n_epochs: usize) -> (r: Vec<usize>)
    ensures
        n_epochs == 0 ==> r@.len() == 0,
        n_epochs > 0 ==> r@.len() == n_epochs - 1,
        forall|t: int| 0 <= t < r@.len() ==> #[trigger] r@[t] == n_epochs - 2 - t,
{
    let mut r: Vec<usize> = Vec::new();
    if n_epochs < 2 {
        return r;
    }
    let mut k: usize = n_epochs - 1;
    while k > 0
        invariant
            n_epochs >= 2,
            k <= n_epochs - 1,
            r@.len() == n_epochs - 1 - k,
            forall|t: int| 0 <= t < r@.len() ==> #[trigger] r@[t] == n_epochs - 2 - t,
        decreases k,
    {
        k = k - 1;
        r.push(k);
    }
    r
}

/// Why an epoch pair is (or is not) smoothed.
#[derive(Clone, Copy, Debug, PartialEq, Eq, Structural)]
pub enum SmoothingStep {
    Smooth,
    /// The later epoch was reset: the smoothing chain is broken there.
    SkipReset,
    /// The later epoch lacks its transition, predicted covariance or
    /// predicted state.
    SkipMissingPrediction,
    /// Either epoch comes from a filter that has not converged yet.
    SkipColdStart,
}

/// Epoch count below which the forward filter counts as cold.
pub const COLD_START_EPOCHS: usize = 2;

/// Decides whether epoch `k` is smoothed against epoch `k+1`.
pub fn smoothing_step(
    next_is_reset: bool,
    next_has_prediction: bool,
    epoch_count_k: usize,
    epoch_count_k1: usize,
) -> (r: SmoothingStep)
    ensures
        r == (if next_is_reset {
            SmoothingStep::SkipReset
        } else if !next_has_prediction {
            SmoothingStep::SkipMissingPrediction
        } else if epoch_count_k < COLD_START_EPOCHS || epoch_count_k1 < COLD_START_EPOCHS {
            SmoothingStep::SkipColdStart
        } else {
            SmoothingStep::Smooth
        }),
        r == SmoothingStep::Smooth <==> !next_is_reset && next_has_prediction && epoch_count_k >= 2
            && epoch_count_k1 >= 2,
        next_is_reset ==> r == SmoothingStep::SkipReset,
        r == SmoothingStep::SkipColdStart ==> epoch_count_k < 2 || epoch_count_k1 < 2,
{
    if next_is_reset {
        SmoothingStep::SkipReset
    } else if !next_has_prediction {
        SmoothingStep::SkipMissingPrediction
    } else if epoch_count_k < COLD_START_EPOCHS || epoch_count_k1 < COLD_START_EPOCHS {
        SmoothingStep::SkipColdStart
    } else {
        SmoothingStep::Smooth
    }
}

/// State indices smoothed at an epoch: the whole core state, then the
/// matched ambiguities.
pub fn smoothing_indices(core_size: usize, matched: &Vec<usize>) -> (r: Vec<usize>)
    requires
        core_size + matched@.len() <= usize::MAX,
    ensures
        r@.len() == core_size + matched@.len(),
        forall|t: int| 0 <= t < core_size ==> #[trigger] r@[t] == t,
        forall|t: int| 0 <= t < matched@.len() ==> #[trigger] r@[core_size + t] == matched@[t],
{
    let mut r: Vec<usize> = Vec::new();
    let mut i: usize = 0;
    while i < core_size
        invariant
            i <= core_size,
            r@.len() == i,
            forall|t: int| 0 <= t < i ==> #[trigger] r@[t] == t,
        decreases core_size - i,
    {
        r.push(i);
        i = i + 1;
    }
    let mut j: usize = 0;
    while j < matched.len()
        invariant
            j <= matched@.len(),
            core_size + matched@.len() <= usize::MAX,
            r@.len() == core_size + j,
            forall|t: int| 0 <= t < core_size ==> #[trigger] r@[t] == t,
            forall|t: int| 0 <= t < j ==> #[trigger] r@[core_size + t] == matched@[t],
        decreases matched@.len() - j,
    {
        r.push(matched[j]);
        j = j + 1;
    }
    r
}

/// Where an entry of the smoothing transition matrix comes from.
#[derive(Clone, Copy, Debug, PartialEq, Eq, Structural)]
pub enum PhiEntry {
    /// Copied from the forward filter's core transition.
    Copy,
    Zero,
    One,
}

/// Entry `(i, j)` of the smoothing transition: the core block is copied
/// from the forward filter except the frozen rows and columns (when the core
/// holds the bias states), and ambiguities persist (identity).
pub open spec fn spec_phi_entry(i: int, j: int, core_size: int) -> PhiEntry {
    if i < core_size && j < core_size {
        if core_size > 15 && (spec_is_frozen(i) || spec_is_frozen(j)) {
            PhiEntry::Zero
        } else {
            PhiEntry::Copy
        }
    } else if i == j {
        PhiEntry::One
    } else {
        PhiEntry::Zero
    }
}

/// Computes the source of one entry of the smoothing transition matrix.
pub fn phi_entry(i: usize, j: usize, core_size: usize) -> (r: PhiEntry)
    ensures
        r == spec_phi_entry(i as int, j as int, core_size as int),
        i < core_size && j < core_size ==> (r == PhiEntry::Zero <==> core_size > 15 && (
        FROZEN_BACKWARD_INDICES@.contains(i) || FROZEN_BACKWARD_INDICES@.contains(j))),
        i < core_size && j < core_size && r != PhiEntry::Zero ==> r == PhiEntry::Copy,
        !(i < core_size && j < core_size) ==> r == (if i == j {
            PhiEntry::One
        } else {
            PhiEntry::Zero
        }),
{
    proof {
        lemma_phi_entry_law(i, j, core_size);
    }
    if i < core_size && j < core_size {
        if core_size > 15 && (is_frozen_index(i) || is_frozen_index(j)) {
            PhiEntry::Zero
        } else {
            PhiEntry::Copy
        }
    } else if i == j {
        PhiEntry::One
    } else {
        PhiEntry::Zero
    }
}

/// The smoothing transition, entry by entry. Inside the core block an
/// entry is zeroed exactly when the core holds the bias states and its row
/// or column is one of `FROZEN_BACKWARD_INDICES`; every other core entry
/// (the clock bias, clock drift and tropospheric delay among them) keeps
/// the forward filter's transition. Outside the core the transition is the
/// identity.
pub proof fn lemma_phi_entry_law(i: usize, j: usize, core_size: usize)
    ensures
        i < core_size && j < core_size ==> (spec_phi_entry(i as int, j as int, core_size as int) == PhiEntry::Zero
            <==> core_size > 15 && (FROZEN_BACKWARD_INDICES@.contains(i) || FROZEN_BACKWARD_INDICES@.contains(j))),
        i < core_size && j < core_size ==> (spec_phi_entry(i as int, j as int, core_size as int) == PhiEntry::Copy
            <==> !(core_size > 15 && (FROZEN_BACKWARD_INDICES@.contains(i) || FROZEN_BACKWARD_INDICES@.contains(
            j,
        )))),
        !(i < core_size && j < core_size) ==> spec_phi_entry(i as int, j as int, core_size as int) == (if i == j {
            PhiEntry::One
        } else {
            PhiEntry::Zero
        }),
{
    lemma_frozen_set();
    assert(FROZEN_BACKWARD_INDICES@.contains(i) <==> spec_is_frozen(i as int)) by {
        if spec_is_frozen(i as int) {
            assert(FROZEN_BACKWARD_INDICES@[(i - 16) as int] == i);
        }
    }
    assert(FROZEN_BACKWARD_INDICES@.contains(j) <==> spec_is_frozen(j as int)) by {
        if spec_is_frozen(j as int) {
            assert(FROZEN_BACKWARD_INDICES@[(j - 16) as int] == j);
        }
    }
}

/// How the predicted covariance is inverted.
#[derive(Debug, PartialEq, Eq)]
pub enum InversionPlan {
    /// Every state is active: invert the whole matrix.
    Full,
    /// Invert the block of these active states and leave the rest zero.
    Partial(Vec<usize>),
}

/// Active states, in order, among the first `n`: not frozen, with a
/// predicted variance above the floor.
pub open spec fn spec_active(positive: Seq<bool>, n: int) -> Seq<usize>
    decreases n,
{
    if n <= 0 {
        seq![]
    } else {
        let prev = spec_active(positive, n - 1);
        if !spec_is_frozen(n - 1) && positive[n - 1] {
            prev.push((n - 1) as usize)
        } else {
            prev
        }
    }
}

/// State `i` takes part in the inversion: it is not one of
/// `FROZEN_BACKWARD_INDICES` and its predicted variance is above the floor.
pub open spec fn takes_part(positive: Seq<bool>, i: int) -> bool {
    0 <= i < positive.len() && positive[i] && !FROZEN_BACKWARD_INDICES@.contains(i as usize)
}

/// The active states below `n` are exactly the states that take part, in
/// increasing order: all of them when every state takes part, none when
/// none does.
pub proof fn lemma_active_exactly(positive: Seq<bool>, n: int)
    requires
        0 <= n <= positive.len(),
        n <= usize::MAX,
    ensures
        spec_active(positive, n).len() <= n,
        forall|t: int| 0 <= t < spec_active(positive, n).len() ==> #[trigger] spec_active(positive, n)[t] < n,
        forall|s: int, t: int|
            0 <= s < t < spec_active(positive, n).len() ==> #[trigger] spec_active(positive, n)[s]
                < #[trigger] spec_active(positive, n)[t],
        forall|i: int| 0 <= i < n ==> (spec_active(positive, n).contains(i as usize) <==> #[trigger] takes_part(positive, i)),
        spec_active(positive, n).len() == n <==> forall|i: int| 0 <= i < n ==> #[trigger] takes_part(positive, i),
        spec_active(positive, n).len() == 0 <==> forall|i: int| 0 <= i < n ==> !#[trigger] takes_part(positive, i),
    decreases n,
{
    if n > 0 {
        lemma_active_exactly(positive, n - 1);
        lemma_frozen_set();
        let prev = spec_active(positive, n - 1);
        let cur = spec_active(positive, n);
        let k = n - 1;
        assert(FROZEN_BACKWARD_INDICES@.contains(k as usize) <==> spec_is_frozen(k)) by {
            if spec_is_frozen(k) {
                assert(FROZEN_BACKWARD_INDICES@[k - 16] == k);
            }
        }
        if takes_part(positive, k) {
            assert(cur == prev.push(k as usize));
            assert(cur[prev.len() as int] == k as usize);
            assert forall|i: int| 0 <= i < n implies (cur.contains(i as usize) <==> #[trigger] takes_part(positive, i)) by {
                if i < k {
                    if prev.contains(i as usize) {
                        let t = choose|t: int| 0 <= t < prev.len() && prev[t] == i as usize;
                        assert(cur[t] == prev[t]);
                    }
                    if cur.contains(i as usize) {
                        let t = choose|t: int| 0 <= t < cur.len() && cur[t] == i as usize;
                        if t < prev.len() {
                            assert(prev[t] == cur[t]);
                        }
                    }
                }
            }
        } else {
            assert(cur == prev);
            assert(!cur.contains(k as usize));
        }
    }
}

/// Plans the inversion of the predicted covariance. `positive[i]` says
/// whether state `i` has a predicted variance above the floor. Frozen states
/// are never active. When every state is active (an empty state included)
/// the whole matrix is inverted; when none of a non-empty state is, the
/// inversion fails.
pub fn plan_inversion(positive: &Vec<bool>) -> (r: Result<InversionPlan, &'static str>)
    ensures
        ({
            let act = spec_active(positive@, positive@.len() as int);
            &&& act.len() == positive@.len() ==> r == Ok::<InversionPlan, &'static str>(InversionPlan::Full)
            &&& act.len() == 0 && positive@.len() > 0 ==> r == Err::<InversionPlan, &'static str>("no active elements")
            &&& 0 < act.len() < positive@.len() ==> (r matches Ok(InversionPlan::Partial(v)) && v@ == act)
        }),
        r == Ok::<InversionPlan, &'static str>(InversionPlan::Full) <==> forall|i: int|
            0 <= i < positive@.len() ==> #[trigger] takes_part(positive@, i),
        r is Err <==> positive@.len() > 0 && forall|i: int|
            0 <= i < positive@.len() ==> !#[trigger] takes_part(positive@, i),
        r matches Ok(InversionPlan::Partial(v)) ==> {
            &&& forall|i: int| 0 <= i < positive@.len() ==> (v@.contains(i as usize) <==> #[trigger] takes_part(positive@, i))
            &&& forall|t: int| 0 <= t < v@.len() ==> #[trigger] v@[t] < positive@.len()
            &&& forall|s: int, t: int| 0 <= s < t < v@.len() ==> #[trigger] v@[s] < #[trigger] v@[t]
        },
{
    let mut active: Vec<usize> = Vec::new();
    let mut i: usize = 0;
    while i < positive.len()
        invariant
            i <= positive@.len(),
            active@ == spec_active(positive@, i as int),
            active@.len() <= i,
        decreases positive@.len() - i,
    {
        if !is_frozen_index(i) && positive[i] {
            active.push(i);
        }
        i = i + 1;
    }
    proof {
        lemma_active_exactly(positive@, positive@.len() as int);
    }
    let m = active.len();
    if m == positive.len() {
        Ok(InversionPlan::Full)
    } else if m > 0 {
        Ok(InversionPlan::Partial(active))
    } else {
        Err("no active elements")
    }
}

/// Checks the shapes of the forward covariance and predicted covariance:
/// square, non-empty, equal, and at least the core size.
pub fn check_smoother_dimensions(
    cov_rows: usize,
    cov_cols: usize,
    pred_rows: usize,
    pred_cols: usize,
    core_size: usize,
) -> (r: Result<(), &'static str>)
    ensures
        r == (if cov_rows == 0 || cov_cols != cov_rows {
            Err::<(), &'static str>("covariance must be square and non-empty")
        } else if pred_rows != cov_rows || pred_cols != cov_rows {
            Err::<(), &'static str>("p_pred dimensions must match covariance")
        } else if cov_rows < core_size {
            Err::<(), &'static str>("covariance smaller than core_size")
        } else {
            Ok::<(), &'static str>(())
        }),
{
    if cov_rows == 0 || cov_cols != cov_rows {
        return Err("covariance must be square and non-empty");
    }
    if pred_rows != cov_rows || pred_cols != cov_rows {
        return Err("p_pred dimensions must match covariance");
    }
    if cov_rows < core_size {
        return Err("covariance smaller than core_size");
    }
    Ok(())
}

/// When the core holds the bias states, every frozen index must exist in a
/// state of dimension `n`.
pub fn check_frozen_in_bounds(core_size: usize, n: usize) -> (r: Result<(), &'static str>)
    ensures
        r == (if core_size <= 15 || n > 18 {
            Ok::<(), &'static str>(())
        } else {
            Err::<(), &'static str>("frozen index exceeds state dimension")
        }),
{
    if core_size > 15 {
        let f = FROZEN_BACKWARD_INDICES;
        let mut i: usize = 0;
        while i < 3
            invariant
                i <= 3,
                f@ == FROZEN_BACKWARD_INDICES@,
                core_size > 15,
                forall|t: int| 0 <= t < i ==> f@[t] < n,
            decreases 3 - i,
        {
            if f[i] >= n {
                return Err("frozen index exceeds state dimension");
            }
            i = i + 1;
        }
        assert(f@[2] < n);
    }
    Ok(())
}

/// Row and column counts of the matrices, and the length of the predicted
/// state, that one backward smoothing step reads.
#[derive(Clone, Copy, Debug, PartialEq, Eq)]
pub struct SmootherShapes {
    pub phi_rows: usize,
    pub phi_cols: usize,
    pub p_pred_rows: usize,
    pub p_pred_cols: usize,
    pub x_pred_len: usize,
    pub cov_k_rows: usize,
    pub cov_k_cols: usize,
    pub cov_k1_rows: usize,
    pub cov_k1_cols: usize,
}

/// Every index of `s` is below `bound`.
pub open spec fn all_below(s: Seq<usize>, bound: int) -> bool {
    forall|t: int| 0 <= t < s.len() ==> #[trigger] s[t] < bound
}

fn indices_below(idx: &Vec<usize>, bound: usize) -> (r: bool)
    ensures
        r == all_below(idx@, bound as int),
{
    let mut i: usize = 0;
    while i < idx.len()
        invariant
            i <= idx@.len(),
            forall|t: int| 0 <= t < i ==> #[trigger] idx@[t] < bound,
        decreases idx@.len() - i,
    {
        if idx[i] >= bound {
            return false;
        }
        i = i + 1;
    }
    true
}

/// The smoothing transition copies the core block of the forward
/// transition, so that matrix must hold at least `core_size` rows and
/// columns.
pub fn check_transition_shape(phi_rows: usize, phi_cols: usize, core_size: usize) -> (r: Result<
    (),
    &'static str,
>)
    ensures
        r == (if phi_rows < core_size || phi_cols < core_size {
            Err::<(), &'static str>("transition matrix smaller than core_size")
        } else {
            Ok::<(), &'static str>(())
        }),
{
    if phi_rows < core_size || phi_cols < core_size {
        Err("transition matrix smaller than core_size")
    } else {
        Ok(())
    }
}

/// What `check_smoothing_inputs` returns: the first shape that cannot serve
/// the smoothed indices `idx_k` (of epoch k) and `idx_k1` (of epoch k+1).
pub open spec fn spec_smoothing_inputs(
    sh: SmootherShapes,
    core_size: int,
    idx_k: Seq<usize>,
    idx_k1: Seq<usize>,
) -> Result<(), &'static str> {
    if sh.phi_rows < core_size || sh.phi_cols < core_size {
        Err("transition matrix smaller than core_size")
    } else if !all_below(idx_k, sh.cov_k_rows as int) || !all_below(idx_k, sh.cov_k_cols as int) {
        Err("smoothed index outside the covariance at k")
    } else if !all_below(idx_k1, sh.cov_k1_rows as int) || !all_below(idx_k1, sh.cov_k1_cols as int) {
        Err("smoothed index outside the covariance at k+1")
    } else if !all_below(idx_k1, sh.p_pred_rows as int) || !all_below(idx_k1, sh.p_pred_cols as int) {
        Err("smoothed index outside p_pred")
    } else if !all_below(idx_k1, sh.x_pred_len as int) {
        Err("smoothed index outside x_pred")
    } else {
        Ok(())
    }
}

/// Checks, before any matrix is read, that every entry one backward step
/// reads exists: the core block of the transition, and the smoothed
/// indices in the two covariances, the predicted covariance and the
/// predicted state.
pub fn check_smoothing_inputs(
    shapes: &SmootherShapes,
    core_size: usize,
    idx_k: &Vec<usize>,
    idx_k1: &Vec<usize>,
) -> (r: Result<(), &'static str>)
    ensures
        r == spec_smoothing_inputs(*shapes, core_size as int, idx_k@, idx_k1@),
{
    check_transition_shape(shapes.phi_rows, shapes.phi_cols, core_size)?;
    if !indices_below(idx_k, shapes.cov_k_rows) || !indices_below(idx_k, shapes.cov_k_cols) {
        return Err("smoothed index outside the covariance at k");
    }
    if !indices_below(idx_k1, shapes.cov_k1_rows) || !indices_below(idx_k1, shapes.cov_k1_cols) {
        return Err("smoothed index outside the covariance at k+1");
    }
    if !indices_below(idx_k1, shapes.p_pred_rows) || !indices_below(idx_k1, shapes.p_pred_cols) {
        return Err("smoothed index outside p_pred");
    }
    if !indices_below(idx_k1, shapes.x_pred_len) {
        return Err("smoothed index outside x_pred");
    }
    Ok(())
}

} // verus!
