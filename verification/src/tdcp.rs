use vstd::prelude::*;
use crate::ambiguity::{first_index, lemma_first_index, same_index};
use crate::sat::{Constellation, SatelliteId, spec_ref_sat, ref_sat_for};
use crate::tracking::SignalPresence;

verus! {

/// Minimum number of time-differenced pairs for a delta-position solution.
pub const MIN_TDCP_MEASUREMENTS: usize = 4;

/// Rover satellites of the matched observations, in order.
pub open spec fn rover_sats(obs: Seq<(SignalPresence, SignalPresence)>) -> Seq<SatelliteId> {
    Seq::new(obs.len(), |i: int| obs[i].0.sat)
}

/// Base satellites of the matched observations, in order.
pub open spec fn base_sats(obs: Seq<(SignalPresence, SignalPresence)>) -> Seq<SatelliteId> {
    Seq::new(obs.len(), |i: int| obs[i].1.sat)
}

/// A satellite pair whose L1 double-difference carrier phase is stored for
/// time-differencing at the next epoch, with the rows it was read from.
#[derive(Clone, Copy, Debug, PartialEq, Eq)]
pub struct TdcpCandidate {
    pub obs_idx: usize,
    pub ref_rov_idx: usize,
    pub ref_base_idx: usize,
    pub sat: SatelliteId,
    pub ref_sat: SatelliteId,
}

/// The candidate formed by matched observation `i`, if any: its
/// constellation must have a reference satellite other than itself, the
/// reference must be observed at rover and base, and all four carrier
/// phases must be present.
pub open spec fn spec_candidate(
    obs: Seq<(SignalPresence, SignalPresence)>,
    refs: Seq<(Constellation, SatelliteId)>,
    i: int,
) -> Option<TdcpCandidate> {
    let (rov, base) = obs[i];
    match spec_ref_sat(refs, rov.sat.constellation) {
        None => None,
        Some(ref_sat) => if rov.sat == ref_sat {
            None
        } else {
            match (first_index(rover_sats(obs), ref_sat), first_index(base_sats(obs), ref_sat)) {
                (Some(rr), Some(rb)) => if rov.has_cp_l1 && obs[rr].0.has_cp_l1 && base.has_cp_l1
                    && obs[rb].1.has_cp_l1 {
                    Some(
                        TdcpCandidate {
                            obs_idx: i as usize,
                            ref_rov_idx: rr as usize,
                            ref_base_idx: rb as usize,
                            sat: rov.sat,
                            ref_sat,
                        },
                    )
                } else {
                    None
                },
                _ => None,
            }
        },
    }
}

/// Candidates among the first `n` matched observations, in order.
pub open spec fn spec_candidates(
    obs: Seq<(SignalPresence, SignalPresence)>,
    refs: Seq<(Constellation, SatelliteId)>,
    n: int,
) -> Seq<TdcpCandidate>
    decreases n,
{
    if n <= 0 {
        seq![]
    } else {
        let prev = spec_candidates(obs, refs, n - 1);
        match spec_candidate(obs, refs, n - 1) {
            Some(c) => prev.push(c),
            None => prev,
        }
    }
}

fn find_rover(obs: &Vec<(SignalPresence, SignalPresence)>, sat: SatelliteId) -> (r: Option<usize>)
    ensures
        same_index(r, first_index(rover_sats(obs@), sat)),
        r matches Some(i) ==> i < obs@.len(),
{
    let ghost s = rover_sats(obs@);
    proof {
        lemma_first_index(s, sat);
    }
    let mut i: usize = 0;
    while i < obs.len()
        invariant
            i <= obs@.len(),
            s == rover_sats(obs@),
            forall|t: int| 0 <= t < i ==> s[t] != sat,
            match first_index(s, sat) {
                Some(j) => 0 <= j < s.len() && s[j] == sat && forall|t: int| 0 <= t < j ==> s[t] != sat,
                None => forall|t: int| 0 <= t < s.len() ==> s[t] != sat,
            },
        decreases obs@.len() - i,
    {
        assert(s[i as int] == obs@[i as int].0.sat);
        if obs[i].0.sat == sat {
            return Some(i);
        }
        i = i + 1;
    }
    None
}

fn find_base(obs: &Vec<(SignalPresence, SignalPresence)>, sat: SatelliteId) -> (r: Option<usize>)
    ensures
        same_index(r, first_index(base_sats(obs@), sat)),
        r matches Some(i) ==> i < obs@.len(),
{
    let ghost s = base_sats(obs@);
    proof {
        lemma_first_index(s, sat);
    }
    let mut i: usize = 0;
    while i < obs.len()
        invariant
            i <= obs@.len(),
            s == base_sats(obs@),
            forall|t: int| 0 <= t < i ==> s[t] != sat,
            match first_index(s, sat) {
                Some(j) => 0 <= j < s.len() && s[j] == sat && forall|t: int| 0 <= t < j ==> s[t] != sat,
                None => forall|t: int| 0 <= t < s.len() ==> s[t] != sat,
            },
        decreases obs@.len() - i,
    {
        assert(s[i as int] == obs@[i as int].1.sat);
        if obs[i].1.sat == sat {
            return Some(i);
        }
        i = i + 1;
    }
    None
}

/// Selects the satellite pairs whose carrier phase is stored for
/// time-differencing (before ephemerides are looked up).
pub fn tdcp_candidates(
    obs: &Vec<(SignalPresence, SignalPresence)>,
    refs: &Vec<(Constellation, SatelliteId)>,
) -> (r: Vec<TdcpCandidate>)
    ensures
        r@ == spec_candidates(obs@, refs@, obs@.len() as int),
        forall|t: int|
            0 <= t < r@.len() ==> {
                let c = #[trigger] r@[t];
                &&& c.sat != c.ref_sat
                &&& c.obs_idx < obs@.len()
                &&& c.ref_rov_idx < obs@.len()
                &&& c.ref_base_idx < obs@.len()
                &&& obs@[c.obs_idx as int].0.has_cp_l1
                &&& obs@[c.obs_idx as int].1.has_cp_l1
                &&& obs@[c.ref_rov_idx as int].0.has_cp_l1
                &&& obs@[c.ref_base_idx as int].1.has_cp_l1
            },
{
    let mut r: Vec<TdcpCandidate> = Vec::new();
    let mut i: usize = 0;
    while i < obs.len()
        invariant
            i <= obs@.len(),
            r@ == spec_candidates(obs@, refs@, i as int),
        decreases obs@.len() - i,
    {
        let (rov, base) = obs[i];
        if let Some(ref_sat) = ref_sat_for(refs, rov.sat.constellation) {
            if rov.sat != ref_sat {
                if let (Some(rr), Some(rb)) = (find_rover(obs, ref_sat), find_base(obs, ref_sat)) {
                    if rov.has_cp_l1 && obs[rr].0.has_cp_l1 && base.has_cp_l1 && obs[rb].1.has_cp_l1 {
                        r.push(
                            TdcpCandidate { obs_idx: i, ref_rov_idx: rr, ref_base_idx: rb, sat: rov.sat, ref_sat },
                        );
                    }
                }
            }
        }
        i = i + 1;
    }
    proof {
        lemma_candidates_well_formed(obs@, refs@, obs@.len() as int);
    }
    r
}

/// The rows of the current epoch that continue a stored pair.
#[derive(Clone, Copy, Debug, PartialEq, Eq)]
pub struct TdcpContinuation {
    pub prev_idx: usize,
    pub rov_idx: usize,
    pub base_idx: usize,
    pub ref_rov_idx: usize,
    pub ref_base_idx: usize,
}

/// Whether stored pair `k` continues at the current epoch: the satellite is
/// still observed at rover and base, its constellation still uses the same
/// reference satellite, that reference is observed at rover and base, and
/// all four carrier phases are present.
pub open spec fn spec_continuation(
    prev: Seq<(SatelliteId, SatelliteId)>,
    obs: Seq<(SignalPresence, SignalPresence)>,
    refs: Seq<(Constellation, SatelliteId)>,
    k: int,
) -> Option<TdcpContinuation> {
    let (sat, ref_sat) = prev[k];
    match (first_index(rover_sats(obs), sat), first_index(base_sats(obs), sat)) {
        (Some(ri), Some(bi)) => if spec_ref_sat(refs, sat.constellation) == Some(ref_sat) {
            match (first_index(rover_sats(obs), ref_sat), first_index(base_sats(obs), ref_sat)) {
                (Some(rr), Some(rb)) => if obs[ri].0.has_cp_l1 && obs[rr].0.has_cp_l1
                    && obs[bi].1.has_cp_l1 && obs[rb].1.has_cp_l1 {
                    Some(
                        TdcpContinuation {
                            prev_idx: k as usize,
                            rov_idx: ri as usize,
                            base_idx: bi as usize,
                            ref_rov_idx: rr as usize,
                            ref_base_idx: rb as usize,
                        },
                    )
                } else {
                    None
                },
                _ => None,
            }
        } else {
            None
        },
        _ => None,
    }
}

/// Continuations of the first `n` stored pairs, in order.
pub open spec fn spec_continuations(
    prev: Seq<(SatelliteId, SatelliteId)>,
    obs: Seq<(SignalPresence, SignalPresence)>,
    refs: Seq<(Constellation, SatelliteId)>,
    n: int,
) -> Seq<TdcpContinuation>
    decreases n,
{
    if n <= 0 {
        seq![]
    } else {
        let before = spec_continuations(prev, obs, refs, n - 1);
        match spec_continuation(prev, obs, refs, n - 1) {
            Some(c) => before.push(c),
            None => before,
        }
    }
}

/// Matches the stored `(satellite, reference)` pairs of the previous epoch
/// to the current observations (before ephemerides are looked up).
pub fn tdcp_continuations(
    prev: &Vec<(SatelliteId, SatelliteId)>,
    obs: &Vec<(SignalPresence, SignalPresence)>,
    refs: &Vec<(Constellation, SatelliteId)>,
) -> (r: Vec<TdcpContinuation>)
    ensures
        r@ == spec_continuations(prev@, obs@, refs@, prev@.len() as int),
        forall|t: int|
            0 <= t < r@.len() ==> {
                let c = #[trigger] r@[t];
                &&& c.prev_idx < prev@.len()
                &&& c.rov_idx < obs@.len()
                &&& c.base_idx < obs@.len()
                &&& c.ref_rov_idx < obs@.len()
                &&& c.ref_base_idx < obs@.len()
                &&& obs@[c.rov_idx as int].0.sat == prev@[c.prev_idx as int].0
                &&& obs@[c.base_idx as int].1.sat == prev@[c.prev_idx as int].0
                &&& obs@[c.ref_rov_idx as int].0.sat == prev@[c.prev_idx as int].1
                &&& obs@[c.ref_base_idx as int].1.sat == prev@[c.prev_idx as int].1
                &&& obs@[c.rov_idx as int].0.has_cp_l1
                &&& obs@[c.base_idx as int].1.has_cp_l1
                &&& obs@[c.ref_rov_idx as int].0.has_cp_l1
                &&& obs@[c.ref_base_idx as int].1.has_cp_l1
            },
{
    let mut r: Vec<TdcpContinuation> = Vec::new();
    let mut k: usize = 0;
    while k < prev.len()
        invariant
            k <= prev@.len(),
            r@ == spec_continuations(prev@, obs@, refs@, k as int),
        decreases prev@.len() - k,
    {
        let (sat, ref_sat) = prev[k];
        if let (Some(ri), Some(bi)) = (find_rover(obs, sat), find_base(obs, sat)) {
            if let Some(cur_ref) = ref_sat_for(refs, sat.constellation) {
                if cur_ref == ref_sat {
                    if let (Some(rr), Some(rb)) = (find_rover(obs, ref_sat), find_base(obs, ref_sat)) {
                        if obs[ri].0.has_cp_l1 && obs[rr].0.has_cp_l1 && obs[bi].1.has_cp_l1
                            && obs[rb].1.has_cp_l1 {
                            r.push(
                                TdcpContinuation {
                                    prev_idx: k,
                                    rov_idx: ri,
                                    base_idx: bi,
                                    ref_rov_idx: rr,
                                    ref_base_idx: rb,
                                },
                            );
                        }
                    }
                }
            }
        }
        k = k + 1;
    }
    let _n_obs: usize = obs.len();
    proof {
        lemma_continuations_keep_reference(prev@, obs@, refs@, prev@.len() as int);
    }
    r
}

/// Stored pairs never difference a satellite against itself, always use
/// their constellation's reference, and read observations that exist.
pub proof fn lemma_candidates_well_formed(
    obs: Seq<(SignalPresence, SignalPresence)>,
    refs: Seq<(Constellation, SatelliteId)>,
    n: int,
)
    requires
        0 <= n <= obs.len(),
        obs.len() <= usize::MAX,
    ensures
        forall|t: int|
            0 <= t < spec_candidates(obs, refs, n).len() ==> {
                let c = #[trigger] spec_candidates(obs, refs, n)[t];
                &&& c.sat != c.ref_sat
                &&& spec_ref_sat(refs, c.sat.constellation) == Some(c.ref_sat)
                &&& c.obs_idx < n
                &&& c.ref_rov_idx < obs.len()
                &&& c.ref_base_idx < obs.len()
                &&& obs[c.obs_idx as int].0.sat == c.sat
                &&& obs[c.ref_rov_idx as int].0.sat == c.ref_sat
                &&& obs[c.ref_base_idx as int].1.sat == c.ref_sat
                &&& obs[c.obs_idx as int].0.has_cp_l1
                &&& obs[c.obs_idx as int].1.has_cp_l1
                &&& obs[c.ref_rov_idx as int].0.has_cp_l1
                &&& obs[c.ref_base_idx as int].1.has_cp_l1
            },
    decreases n,
{
    if n > 0 {
        lemma_candidates_well_formed(obs, refs, n - 1);
        let (rov, base) = obs[n - 1];
        if let Some(ref_sat) = spec_ref_sat(refs, rov.sat.constellation) {
            lemma_first_index(rover_sats(obs), ref_sat);
            lemma_first_index(base_sats(obs), ref_sat);
        }
    }
}

/// A pair continues only under the same reference satellite its carrier
/// phase was differenced against at the previous epoch, on observations of
/// the same satellites.
pub proof fn lemma_continuations_keep_reference(
    prev: Seq<(SatelliteId, SatelliteId)>,
    obs: Seq<(SignalPresence, SignalPresence)>,
    refs: Seq<(Constellation, SatelliteId)>,
    n: int,
)
    requires
        0 <= n <= prev.len(),
        prev.len() <= usize::MAX,
        obs.len() <= usize::MAX,
    ensures
        forall|t: int|
            0 <= t < spec_continuations(prev, obs, refs, n).len() ==> {
                let c = #[trigger] spec_continuations(prev, obs, refs, n)[t];
                let (sat, ref_sat) = prev[c.prev_idx as int];
                &&& c.prev_idx < n
                &&& spec_ref_sat(refs, sat.constellation) == Some(ref_sat)
                &&& c.rov_idx < obs.len()
                &&& c.base_idx < obs.len()
                &&& c.ref_rov_idx < obs.len()
                &&& c.ref_base_idx < obs.len()
                &&& obs[c.rov_idx as int].0.sat == sat
                &&& obs[c.base_idx as int].1.sat == sat
                &&& obs[c.ref_rov_idx as int].0.sat == ref_sat
                &&& obs[c.ref_base_idx as int].1.sat == ref_sat
                &&& obs[c.rov_idx as int].0.has_cp_l1
                &&& obs[c.base_idx as int].1.has_cp_l1
                &&& obs[c.ref_rov_idx as int].0.has_cp_l1
                &&& obs[c.ref_base_idx as int].1.has_cp_l1
            },
        forall|s: int, t: int|
            0 <= s < t < spec_continuations(prev, obs, refs, n).len() ==> #[trigger] spec_continuations(
                prev,
                obs,
                refs,
                n,
            )[s].prev_idx < #[trigger] spec_continuations(prev, obs, refs, n)[t].prev_idx,
    decreases n,
{
    if n > 0 {
        lemma_continuations_keep_reference(prev, obs, refs, n - 1);
        let (sat, ref_sat) = prev[n - 1];
        lemma_first_index(rover_sats(obs), sat);
        lemma_first_index(base_sats(obs), sat);
        lemma_first_index(rover_sats(obs), ref_sat);
        lemma_first_index(base_sats(obs), ref_sat);
        let before = spec_continuations(prev, obs, refs, n - 1);
        let after = spec_continuations(prev, obs, refs, n);
        if let Some(c) = spec_continuation(prev, obs, refs, n - 1) {
            assert(after == before.push(c));
            assert(c.prev_idx as int == n - 1);
            assert forall|t: int| 0 <= t < after.len() implies #[trigger] after[t] == (if t < before.len() { before[t] } else { c }) by {}
        }
    }
}

/// A stored pair is continued whenever it can be: the satellite is found
/// at rover and base (first matching rows), its constellation still names
/// the same reference, the reference is found at rover and base, and all
/// four of those rows carry an L1 carrier phase.
pub proof fn lemma_continuations_complete(
    prev: Seq<(SatelliteId, SatelliteId)>,
    obs: Seq<(SignalPresence, SignalPresence)>,
    refs: Seq<(Constellation, SatelliteId)>,
    n: int,
)
    requires
        0 <= n <= prev.len(),
        prev.len() <= usize::MAX,
        obs.len() <= usize::MAX,
    ensures
        forall|k: int|
            #![trigger prev[k]]
            0 <= k < n && first_index(rover_sats(obs), prev[k].0) is Some && first_index(base_sats(obs), prev[k].0)
                is Some && spec_ref_sat(refs, prev[k].0.constellation) == Some(prev[k].1) && first_index(
                rover_sats(obs),
                prev[k].1,
            ) is Some && first_index(base_sats(obs), prev[k].1) is Some && obs[first_index(
                rover_sats(obs),
                prev[k].0,
            )->0].0.has_cp_l1 && obs[first_index(base_sats(obs), prev[k].0)->0].1.has_cp_l1 && obs[first_index(
                rover_sats(obs),
                prev[k].1,
            )->0].0.has_cp_l1 && obs[first_index(base_sats(obs), prev[k].1)->0].1.has_cp_l1 ==> exists|t: int|
                0 <= t < spec_continuations(prev, obs, refs, n).len() && (#[trigger] spec_continuations(
                    prev,
                    obs,
                    refs,
                    n,
                )[t]).prev_idx == k,
    decreases n,
{
    if n > 0 {
        lemma_continuations_complete(prev, obs, refs, n - 1);
        let before = spec_continuations(prev, obs, refs, n - 1);
        let after = spec_continuations(prev, obs, refs, n);
        assert forall|k: int|
            #![trigger prev[k]]
            0 <= k < n && first_index(rover_sats(obs), prev[k].0) is Some && first_index(base_sats(obs), prev[k].0)
                is Some && spec_ref_sat(refs, prev[k].0.constellation) == Some(prev[k].1) && first_index(
                rover_sats(obs),
                prev[k].1,
            ) is Some && first_index(base_sats(obs), prev[k].1) is Some && obs[first_index(
                rover_sats(obs),
                prev[k].0,
            )->0].0.has_cp_l1 && obs[first_index(base_sats(obs), prev[k].0)->0].1.has_cp_l1 && obs[first_index(
                rover_sats(obs),
                prev[k].1,
            )->0].0.has_cp_l1 && obs[first_index(base_sats(obs), prev[k].1)->0].1.has_cp_l1 implies exists|t: int|
                0 <= t < after.len() && (#[trigger] after[t]).prev_idx == k by {
            if k < n - 1 {
                let t = choose|t: int| 0 <= t < before.len() && (#[trigger] before[t]).prev_idx == k;
                if let Some(c) = spec_continuation(prev, obs, refs, n - 1) {
                    assert(after == before.push(c));
                }
                assert(after[t] == before[t]);
            } else {
                let c = spec_continuation(prev, obs, refs, n - 1)->0;
                assert(after == before.push(c));
                assert(after[before.len() as int] == c);
            }
        }
    }
}

/// A satellite is stored as a candidate whenever it can be: its
/// constellation names a reference other than itself, the reference is
/// found at rover and base (first matching rows), and the satellite's row
/// and both reference rows carry an L1 carrier phase at rover and base.
/// (Stated for row `i` among the first `n` rows.)
pub proof fn lemma_candidates_complete(
    obs: Seq<(SignalPresence, SignalPresence)>,
    refs: Seq<(Constellation, SatelliteId)>,
    n: int,
    i: int,
)
    requires
        0 <= i < n <= obs.len(),
        obs.len() <= usize::MAX,
        spec_ref_sat(refs, obs[i].0.sat.constellation) matches Some(ref_sat) && ref_sat != obs[i].0.sat && (
        first_index(rover_sats(obs), ref_sat) matches Some(rr) && first_index(base_sats(obs), ref_sat) matches Some(
            rb,
        ) && obs[i].0.has_cp_l1 && obs[i].1.has_cp_l1 && obs[rr].0.has_cp_l1 && obs[rb].1.has_cp_l1),
    ensures
        exists|t: int|
            0 <= t < spec_candidates(obs, refs, n).len() && (#[trigger] spec_candidates(obs, refs, n)[t]).obs_idx == i,
    decreases n,
{
    let before = spec_candidates(obs, refs, n - 1);
    let after = spec_candidates(obs, refs, n);
    if i < n - 1 {
        lemma_candidates_complete(obs, refs, n - 1, i);
        let t = choose|t: int| 0 <= t < before.len() && (#[trigger] before[t]).obs_idx == i;
        if let Some(c) = spec_candidate(obs, refs, n - 1) {
            assert(after == before.push(c));
        }
        assert(after[t] == before[t]);
    } else {
        let c = spec_candidate(obs, refs, n - 1)->0;
        assert(after == before.push(c));
        assert(after[before.len() as int] == c);
    }
}

/// Whether enough pairs remain for a delta-position solution.
pub fn tdcp_enough_pairs(n: usize) -> (b: bool)
    ensures
        b == (n >= MIN_TDCP_MEASUREMENTS),
{
    n >= MIN_TDCP_MEASUREMENTS
}

} // verus!
