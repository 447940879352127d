use vstd::prelude::*;
use crate::ambiguity::AmbiguityKey;
use crate::sat::{Constellation, SatelliteId, spec_ref_sat, ref_sat_for};

verus! {

/// For every (satellite, band) whose carrier phase has been tracked, the
/// epoch count at which it was last observed.
pub struct LastObserved {
    entries: Vec<(AmbiguityKey, u32)>,
    model: Ghost<Map<AmbiguityKey, u32>>,
}

impl View for LastObserved {
    type V = Map<AmbiguityKey, u32>;

    closed spec fn view(&self) -> Map<AmbiguityKey, u32> {
        self.model@
    }
}

impl LastObserved {
    /// Internal consistency: one entry per key, and the entries are the map.
    pub closed spec fn wf(&self) -> bool {
        &&& forall|i: int, j: int|
            0 <= i < j < self.entries@.len() ==> self.entries@[i].0 != self.entries@[j].0
        &&& forall|i: int|
            0 <= i < self.entries@.len() ==> {
                &&& self.model@.contains_key(#[trigger] self.entries@[i].0)
                &&& self.model@[self.entries@[i].0] == self.entries@[i].1
            }
        &&& forall|k: AmbiguityKey|
            #[trigger] self.model@.contains_key(k) ==> exists|i: int|
                0 <= i < self.entries@.len() && self.entries@[i].0 == k
    }

    /// An empty record.
    pub fn new() -> (r: Self)
        ensures
            r.wf(),
            r@ == Map::<AmbiguityKey, u32>::empty(),
    {
        LastObserved { entries: Vec::new(), model: Ghost(Map::empty()) }
    }

    fn find(&self, key: &AmbiguityKey) -> (r: Option<usize>)
        requires
            self.wf(),
        ensures
            r matches Some(i) ==> i < self.entries@.len() && self.entries@[i as int].0 == *key,
            r is None ==> !self@.contains_key(*key),
    {
        let mut i: usize = 0;
        while i < self.entries.len()
            invariant
                self.wf(),
                i <= self.entries@.len(),
                forall|t: int| 0 <= t < i ==> self.entries@[t].0 != *key,
            decreases self.entries@.len() - i,
        {
            if self.entries[i].0.0 == key.0 && self.entries[i].0.1 == key.1 {
                return Some(i);
            }
            i = i + 1;
        }
        None
    }

    /// Records `epoch` as the last observation of `key`.
    pub fn insert(&mut self, key: AmbiguityKey, epoch: u32)
        requires
            old(self).wf(),
        ensures
            final(self).wf(),
            final(self)@ == old(self)@.insert(key, epoch),
    {
        let ghost new_model = self.model@.insert(key, epoch);
        let ghost pos: int;
        match self.find(&key) {
            Some(i) => {
                self.entries.set(i, (key, epoch));
                proof {
                    pos = i as int;
                }
            },
            None => {
                self.entries.push((key, epoch));
                proof {
                    pos = self.entries@.len() - 1;
                }
            },
        }
        self.model = Ghost(new_model);
        proof {
            assert(0 <= pos < self.entries@.len() && self.entries@[pos].0 == key);
            assert forall|k: AmbiguityKey| #[trigger] self.model@.contains_key(k) implies exists|i: int|
                0 <= i < self.entries@.len() && self.entries@[i].0 == k by {
                if k != key {
                    assert(old(self).model@.contains_key(k));
                    let i = choose|i: int| 0 <= i < old(self).entries@.len() && old(self).entries@[i].0 == k;
                    assert(self.entries@[i].0 == k);
                }
            }
        }
    }

    /// The epoch at which `key` was last observed, if ever.
    pub fn get(&self, key: &AmbiguityKey) -> (r: Option<u32>)
        requires
            self.wf(),
        ensures
            r == (if self@.contains_key(*key) {
                Some(self@[*key])
            } else {
                None
            }),
    {
        match self.find(key) {
            Some(i) => Some(self.entries[i].1),
            None => None,
        }
    }

    /// Whether `key` has ever been observed.
    pub fn contains_key(&self, key: &AmbiguityKey) -> (r: bool)
        requires
            self.wf(),
        ensures
            r == self@.contains_key(*key),
    {
        self.find(key).is_some()
    }
}

/// Which carrier phases a satellite was tracked on at an epoch.
#[derive(Clone, Copy, Debug, PartialEq, Eq)]
pub struct SignalPresence {
    pub sat: SatelliteId,
    pub has_cp_l1: bool,
    pub has_cp_l2: bool,
}

/// The record after stamping the first `n` observations with `epoch`.
pub open spec fn stamp_observed(
    m: Map<AmbiguityKey, u32>,
    obs: Seq<SignalPresence>,
    n: int,
    epoch: u32,
) -> Map<AmbiguityKey, u32>
    decreases n,
{
    if n <= 0 {
        m
    } else {
        let before = stamp_observed(m, obs, n - 1, epoch);
        let o = obs[n - 1];
        let with_l1 = if o.has_cp_l1 {
            before.insert((o.sat, 1u8), epoch)
        } else {
            before
        };
        if o.has_cp_l2 {
            with_l1.insert((o.sat, 2u8), epoch)
        } else {
            with_l1
        }
    }
}

/// Stamps every carrier phase tracked at this epoch (L1 as band 1, L2 as
/// band 2) with the current epoch count (truncated to 32 bits).
pub fn update_last_observed(last: &mut LastObserved, epoch_count: usize, obs: &Vec<SignalPresence>)
    requires
        old(last).wf(),
    ensures
        final(last).wf(),
        final(last)@ == stamp_observed(old(last)@, obs@, obs@.len() as int, epoch_count as u32),
{
    #[verifier::truncate]
    let epoch = epoch_count as u32;
    let mut i: usize = 0;
    while i < obs.len()
        invariant
            i <= obs@.len(),
            last.wf(),
            last@ == stamp_observed(old(last)@, obs@, i as int, epoch),
            epoch == epoch_count as u32,
        decreases obs@.len() - i,
    {
        let o = obs[i];
        if o.has_cp_l1 {
            last.insert((o.sat, 1), epoch);
        }
        if o.has_cp_l2 {
            last.insert((o.sat, 2), epoch);
        }
        i = i + 1;
    }
}

/// After stamping, a (satellite, band) whose carrier phase appears among
/// the observations maps to the epoch; one that appears on no observation
/// keeps its earlier record.
pub proof fn lemma_stamp_observed(
    m: Map<AmbiguityKey, u32>,
    obs: Seq<SignalPresence>,
    n: int,
    epoch: u32,
    key: AmbiguityKey,
)
    requires
        0 <= n <= obs.len(),
    ensures
        ({
            let seen = exists|i: int|
                0 <= i < n && (#[trigger] obs[i]).sat == key.0 && ((key.1 == 1 && obs[i].has_cp_l1) || (
                key.1 == 2 && obs[i].has_cp_l2));
            let r = stamp_observed(m, obs, n, epoch);
            &&& seen ==> r.contains_key(key) && r[key] == epoch
            &&& !seen ==> (r.contains_key(key) == m.contains_key(key) && (m.contains_key(key)
                ==> r[key] == m[key]))
        }),
    decreases n,
{
    if n > 0 {
        lemma_stamp_observed(m, obs, n - 1, epoch, key);
        let o = obs[n - 1];
        if o.sat == key.0 && ((key.1 == 1 && o.has_cp_l1) || (key.1 == 2 && o.has_cp_l2)) {
            assert(obs[n - 1].sat == key.0);
        }
    }
}

/// One pseudorange innovation to accumulate: the measurement row and the
/// satellite pair whose window it belongs to.
#[derive(Clone, Copy, Debug, PartialEq, Eq)]
pub struct PrWindowEntry {
    pub row: usize,
    pub sat: SatelliteId,
    pub ref_sat: SatelliteId,
}

/// The entries of the first `n` measurement rows: pseudorange rows (type
/// code 0) only, paired with their constellation's reference satellite or,
/// when it has none, with the satellite itself.
pub open spec fn spec_pr_window_entries(
    meas_types: Seq<(SatelliteId, u8)>,
    refs: Seq<(Constellation, SatelliteId)>,
    n: int,
) -> Seq<PrWindowEntry>
    decreases n,
{
    if n <= 0 {
        seq![]
    } else {
        let prev = spec_pr_window_entries(meas_types, refs, n - 1);
        let (sat, code) = meas_types[n - 1];
        if code == 0 {
            let ref_sat = match spec_ref_sat(refs, sat.constellation) {
                Some(r) => r,
                None => sat,
            };
            prev.push(PrWindowEntry { row: (n - 1) as usize, sat, ref_sat })
        } else {
            prev
        }
    }
}

/// Selects the pseudorange innovations that go into the per-pair
/// multi-epoch windows; a window size of zero disables accumulation.
pub fn pr_window_entries(
    meas_types: &Vec<(SatelliteId, u8)>,
    refs: &Vec<(Constellation, SatelliteId)>,
    window_size: usize,
) -> (r: Vec<PrWindowEntry>)
    ensures
        window_size == 0 ==> r@ == Seq::<PrWindowEntry>::empty(),
        window_size > 0 ==> r@ == spec_pr_window_entries(meas_types@, refs@, meas_types@.len() as int),
{
    let mut r: Vec<PrWindowEntry> = Vec::new();
    if window_size == 0 {
        return r;
    }
    let mut i: usize = 0;
    while i < meas_types.len()
        invariant
            i <= meas_types@.len(),
            r@ == spec_pr_window_entries(meas_types@, refs@, i as int),
        decreases meas_types@.len() - i,
    {
        let (sat, code) = meas_types[i];
        if code == 0 {
            let ref_sat = match ref_sat_for(refs, sat.constellation) {
                Some(rs) => rs,
                None => sat,
            };
            r.push(PrWindowEntry { row: i, sat, ref_sat });
        }
        i = i + 1;
    }
    r
}

} // verus!
