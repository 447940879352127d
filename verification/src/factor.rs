use vstd::prelude::*;
use crate::ambiguity::{AmbiguityKey, ColumnSign, DdRowLayout, describe_dd_row, spec_dd_row, first_index, lemma_first_index, same_index};
use crate::sat::SatelliteId;

verus! {

/// State layout of the two-epoch factor graph:
/// `[pos(k-1) 3, vel(k-1) 3, clk(k-1) 1, pos(k) 3, vel(k) 3, clk(k) 1, ambiguities..]`.
pub const OFF_PREV_POS: usize = 0;
pub const OFF_PREV_VEL: usize = 3;
pub const OFF_PREV_CLK: usize = 6;
pub const OFF_CURR_POS: usize = 7;
pub const OFF_CURR_VEL: usize = 10;
pub const OFF_CURR_CLK: usize = 13;
pub const OFF_AMB: usize = 14;
/// Dimension of the two epochs' kinematic states together.
pub const DIM_BASE: usize = 14;

/// Where a double-difference factor reads the graph state.
#[derive(Clone, Copy, Debug, PartialEq, Eq)]
pub enum FactorPlan {
    Pseudorange { index_px: usize, index_py: usize, index_pz: usize },
    CarrierPhase {
        index_px: usize,
        index_py: usize,
        index_pz: usize,
        index_amb_sat: usize,
        index_amb_ref: usize,
        iono_pair: Option<(usize, usize)>,
    },
}

/// The graph index an epoch's ambiguity index maps to, if any
/// (an index beyond the map maps nowhere).
pub open spec fn map_lookup(map: Seq<Option<usize>>, i: usize) -> Option<usize> {
    if (i as int) < map.len() {
        map[i as int]
    } else {
        None
    }
}

/// Whether every graph index of the map can be offset by `offset`.
pub open spec fn map_fits(map: Seq<Option<usize>>, offset: usize) -> bool {
    forall|i: int| 0 <= i < map.len() ==> (#[trigger] map[i] matches Some(v) ==> offset + v <= usize::MAX)
}

/// What `plan_dd_factor` returns, stated directly.
pub open spec fn spec_plan(
    row: DdRowLayout,
    pos_offset: usize,
    amb_offset: usize,
    amb_map: Seq<Option<usize>>,
) -> Option<FactorPlan> {
    if row.is_pr {
        Some(
            FactorPlan::Pseudorange {
                index_px: pos_offset,
                index_py: (pos_offset + 1) as usize,
                index_pz: (pos_offset + 2) as usize,
            },
        )
    } else {
        let sat = match row.amb_idx {
            Some(ai) => map_lookup(amb_map, ai),
            None => None,
        };
        let rf = match row.ref_amb_idx {
            Some(ri) => map_lookup(amb_map, ri),
            None => None,
        };
        let iono = match row.iono_pair {
            Some((si, ri)) => match (map_lookup(amb_map, si), map_lookup(amb_map, ri)) {
                (Some(a), Some(b)) => Some(((amb_offset + a) as usize, (amb_offset + b) as usize)),
                _ => None,
            },
            None => None,
        };
        match (sat, rf) {
            (Some(sa), Some(ra)) => Some(
                FactorPlan::CarrierPhase {
                    index_px: pos_offset,
                    index_py: (pos_offset + 1) as usize,
                    index_pz: (pos_offset + 2) as usize,
                    index_amb_sat: (amb_offset + sa) as usize,
                    index_amb_ref: (amb_offset + ra) as usize,
                    iono_pair: iono,
                },
            ),
            _ => None,
        }
    }
}

fn lookup(map: &Vec<Option<usize>>, i: usize) -> (r: Option<usize>)
    ensures
        r == map_lookup(map@, i),
{
    if i < map.len() {
        map[i]
    } else {
        None
    }
}

/// Plans the factor of one stored double-difference measurement: where its
/// position block sits, and which graph states its ambiguities map to
/// through `amb_map`. A carrier phase whose satellite or reference
/// ambiguity is missing from the graph gives no factor (`None`); its
/// ionosphere pair is kept only when both ionosphere states are mapped.
pub fn plan_dd_factor(
    row: &DdRowLayout,
    pos_offset: usize,
    amb_offset: usize,
    amb_map: &Vec<Option<usize>>,
) -> (r: Option<FactorPlan>)
    requires
        pos_offset + 2 <= usize::MAX,
        map_fits(amb_map@, amb_offset),
    ensures
        r == spec_plan(*row, pos_offset, amb_offset, amb_map@),
        r matches Some(p) ==> plan_position(p) == (pos_offset, (pos_offset + 1) as usize, (pos_offset + 2) as usize),
{
    proof {
        lemma_plan_reads_row(*row, pos_offset, amb_offset, amb_map@);
    }
    if row.is_pr {
        return Some(
            FactorPlan::Pseudorange {
                index_px: pos_offset,
                index_py: pos_offset + 1,
                index_pz: pos_offset + 2,
            },
        );
    }
    let sat = match row.amb_idx {
        Some(ai) => lookup(amb_map, ai),
        None => None,
    };
    let rf = match row.ref_amb_idx {
        Some(ri) => lookup(amb_map, ri),
        None => None,
    };
    let (sa, ra) = match (sat, rf) {
        (Some(sa), Some(ra)) => (sa, ra),
        _ => return None,
    };
    let iono = match row.iono_pair {
        Some((si, ri)) => match (lookup(amb_map, si), lookup(amb_map, ri)) {
            (Some(a), Some(b)) => {
                assert(amb_map@[si as int] matches Some(v) ==> amb_offset + v <= usize::MAX);
                assert(amb_map@[ri as int] matches Some(v) ==> amb_offset + v <= usize::MAX);
                Some((amb_offset + a, amb_offset + b))
            },
            _ => None,
        },
        None => None,
    };
    proof {
        let ai = row.amb_idx->0;
        let ri = row.ref_amb_idx->0;
        assert(amb_map@[ai as int] matches Some(v) ==> amb_offset + v <= usize::MAX);
        assert(amb_map@[ri as int] matches Some(v) ==> amb_offset + v <= usize::MAX);
    }
    Some(
        FactorPlan::CarrierPhase {
            index_px: pos_offset,
            index_py: pos_offset + 1,
            index_pz: pos_offset + 2,
            index_amb_sat: amb_offset + sa,
            index_amb_ref: amb_offset + ra,
            iono_pair: iono,
        },
    )
}

/// Plans of the first `n` rows, skipping rows that give no factor.
pub open spec fn spec_plans(
    rows: Seq<DdRowLayout>,
    pos_offset: usize,
    amb_offset: usize,
    amb_map: Seq<Option<usize>>,
    n: int,
) -> Seq<FactorPlan>
    decreases n,
{
    if n <= 0 {
        seq![]
    } else {
        let prev = spec_plans(rows, pos_offset, amb_offset, amb_map, n - 1);
        match spec_plan(rows[n - 1], pos_offset, amb_offset, amb_map) {
            Some(p) => prev.push(p),
            None => prev,
        }
    }
}

/// Plans the factors of one epoch's measurement rows, in order, through the
/// epoch's ambiguity map.
pub fn plan_epoch_factors(
    rows: &Vec<DdRowLayout>,
    pos_offset: usize,
    amb_offset: usize,
    amb_map: &Vec<Option<usize>>,
) -> (r: Vec<FactorPlan>)
    requires
        pos_offset + 2 <= usize::MAX,
        map_fits(amb_map@, amb_offset),
    ensures
        r@ == spec_plans(rows@, pos_offset, amb_offset, amb_map@, rows@.len() as int),
        forall|t: int|
            0 <= t < r@.len() ==> plan_position(#[trigger] r@[t]) == (
                pos_offset,
                (pos_offset + 1) as usize,
                (pos_offset + 2) as usize,
            ),
{
    proof {
        lemma_epoch_factors_read_epoch_position(rows@, pos_offset, amb_offset, amb_map@, rows@.len() as int);
    }
    let mut r: Vec<FactorPlan> = Vec::new();
    let mut i: usize = 0;
    while i < rows.len()
        invariant
            i <= rows@.len(),
            pos_offset + 2 <= usize::MAX,
            map_fits(amb_map@, amb_offset),
            r@ == spec_plans(rows@, pos_offset, amb_offset, amb_map@, i as int),
        decreases rows@.len() - i,
    {
        if let Some(p) = plan_dd_factor(&rows[i], pos_offset, amb_offset, amb_map) {
            r.push(p);
        }
        i = i + 1;
    }
    r
}

/// Layouts of every measurement row of an epoch, as stored for the next
/// epoch's factor graph: `meas_types[i]` is the satellite and type code of
/// row `i` and `signs[i]` the signs of its ambiguity columns.
pub fn save_prev_epoch_layouts(
    meas_types: &Vec<(SatelliteId, u8)>,
    signs: &Vec<Vec<ColumnSign>>,
    keys: &Vec<AmbiguityKey>,
) -> (r: Vec<DdRowLayout>)
    requires
        signs@.len() == meas_types@.len(),
    ensures
        r@.len() == meas_types@.len(),
        forall|i: int|
            0 <= i < r@.len() ==> spec_dd_row(meas_types@[i].0, meas_types@[i].1, signs@[i]@, keys@, #[trigger] r@[i]),
{
    let mut r: Vec<DdRowLayout> = Vec::new();
    let mut i: usize = 0;
    while i < meas_types.len()
        invariant
            i <= meas_types@.len(),
            signs@.len() == meas_types@.len(),
            r@.len() == i,
            forall|t: int|
                0 <= t < i ==> spec_dd_row(meas_types@[t].0, meas_types@[t].1, signs@[t]@, keys@, #[trigger] r@[t]),
        decreases meas_types@.len() - i,
    {
        let (sat, code) = meas_types[i];
        r.push(describe_dd_row(sat, code, &signs[i], keys));
        i = i + 1;
    }
    r
}

/// Every state index a plan reads.
pub open spec fn plan_within(p: FactorPlan, total: int) -> bool {
    match p {
        FactorPlan::Pseudorange { index_px, index_py, index_pz } => index_px < total && index_py < total
            && index_pz < total,
        FactorPlan::CarrierPhase { index_px, index_py, index_pz, index_amb_sat, index_amb_ref, iono_pair } => {
            &&& index_px < total
            &&& index_py < total
            &&& index_pz < total
            &&& index_amb_sat < total
            &&& index_amb_ref < total
            &&& iono_pair matches Some((a, b)) ==> a < total && b < total
        },
    }
}

/// A factor planned through a map into `n_amb` ambiguity states reads
/// only states of the graph: its position block lies within the kinematic
/// part and its ambiguity indices within the ambiguity part.
pub proof fn lemma_plan_within_graph(
    row: DdRowLayout,
    pos_offset: usize,
    amb_map: Seq<Option<usize>>,
    n_amb: nat,
)
    requires
        pos_offset + 2 < DIM_BASE,
        forall|i: int| 0 <= i < amb_map.len() ==> (#[trigger] amb_map[i] matches Some(v) ==> v < n_amb),
    ensures
        spec_plan(row, pos_offset, OFF_AMB, amb_map) matches Some(p) ==> plan_within(p, DIM_BASE + n_amb),
{
    if let Some(ai) = row.amb_idx {
        if (ai as int) < amb_map.len() {
            assert(amb_map[ai as int] matches Some(v) ==> v < n_amb);
        }
    }
    if let Some(ri) = row.ref_amb_idx {
        if (ri as int) < amb_map.len() {
            assert(amb_map[ri as int] matches Some(v) ==> v < n_amb);
        }
    }
    if let Some((si, ri)) = row.iono_pair {
        if (si as int) < amb_map.len() {
            assert(amb_map[si as int] matches Some(v) ==> v < n_amb);
        }
        if (ri as int) < amb_map.len() {
            assert(amb_map[ri as int] matches Some(v) ==> v < n_amb);
        }
    }
}

/// A previous epoch's carrier-phase factor, planned through the map that
/// `build_ambiguity_map` gives, constrains the current ambiguity states of
/// the very keys (satellite and band) it was measured on.
pub proof fn lemma_mapped_ambiguity_keeps_key(
    row: DdRowLayout,
    pos_offset: usize,
    prev_keys: Seq<AmbiguityKey>,
    curr_keys: Seq<AmbiguityKey>,
    amb_map: Seq<Option<usize>>,
)
    requires
        amb_map.len() == prev_keys.len(),
        forall|i: int|
            0 <= i < prev_keys.len() ==> same_index(#[trigger] amb_map[i], first_index(curr_keys, prev_keys[i])),
        OFF_AMB + curr_keys.len() <= usize::MAX,
    ensures
        spec_plan(row, pos_offset, OFF_AMB, amb_map) matches Some(FactorPlan::CarrierPhase {
            index_amb_sat,
            index_amb_ref,
            ..
        }) ==> {
            &&& OFF_AMB <= index_amb_sat < OFF_AMB + curr_keys.len()
            &&& OFF_AMB <= index_amb_ref < OFF_AMB + curr_keys.len()
            &&& curr_keys[index_amb_sat - OFF_AMB] == prev_keys[row.amb_idx->0 as int]
            &&& curr_keys[index_amb_ref - OFF_AMB] == prev_keys[row.ref_amb_idx->0 as int]
        },
{
    if !row.is_pr {
        if let (Some(ai), Some(ri)) = (row.amb_idx, row.ref_amb_idx) {
            if (ai as int) < amb_map.len() && (ri as int) < amb_map.len() {
                assert(same_index(amb_map[ai as int], first_index(curr_keys, prev_keys[ai as int])));
                assert(same_index(amb_map[ri as int], first_index(curr_keys, prev_keys[ri as int])));
                lemma_first_index(curr_keys, prev_keys[ai as int]);
                lemma_first_index(curr_keys, prev_keys[ri as int]);
            }
        }
    }
}

/// Current-epoch measurements are planned through the identity map: a
/// carrier-phase row that touches ambiguity states `a` (satellite) and `r`
/// (reference) of `n_amb` reads graph states `OFF_AMB + a` and `OFF_AMB + r`.
pub proof fn lemma_identity_plan(row: DdRowLayout, pos_offset: usize, amb_map: Seq<Option<usize>>, n_amb: nat)
    requires
        amb_map.len() == n_amb,
        forall|i: int| 0 <= i < n_amb ==> #[trigger] amb_map[i] == Some(i as usize),
        OFF_AMB + n_amb <= usize::MAX,
        pos_offset + 2 <= usize::MAX,
        !row.is_pr,
        row.amb_idx matches Some(a) && a < n_amb,
        row.ref_amb_idx matches Some(r) && r < n_amb,
    ensures
        spec_plan(row, pos_offset, OFF_AMB, amb_map) matches Some(FactorPlan::CarrierPhase {
            index_amb_sat,
            index_amb_ref,
            ..
        }) && index_amb_sat == OFF_AMB + row.amb_idx->0 && index_amb_ref == OFF_AMB + row.ref_amb_idx->0,
{
    assert(amb_map[row.amb_idx->0 as int] == Some(row.amb_idx->0));
    assert(amb_map[row.ref_amb_idx->0 as int] == Some(row.ref_amb_idx->0));
}

/// The position block a factor reads: its first, second and third index.
pub open spec fn plan_position(p: FactorPlan) -> (usize, usize, usize) {
    match p {
        FactorPlan::Pseudorange { index_px, index_py, index_pz } => (index_px, index_py, index_pz),
        FactorPlan::CarrierPhase { index_px, index_py, index_pz, .. } => (index_px, index_py, index_pz),
    }
}

/// How a row is planned. Every factor, pseudorange or carrier phase, reads
/// the position block at `pos_offset`. A pseudorange row always gives a
/// pseudorange factor. A carrier-phase row gives a carrier-phase factor
/// exactly when both its satellite and reference ambiguities are mapped,
/// and then reads the mapped states past `amb_offset`; its ionosphere pair
/// is kept exactly when the row has one and both its states are mapped.
pub proof fn lemma_plan_reads_row(
    row: DdRowLayout,
    pos_offset: usize,
    amb_offset: usize,
    amb_map: Seq<Option<usize>>,
)
    requires
        pos_offset + 2 <= usize::MAX,
        map_fits(amb_map, amb_offset),
    ensures
        spec_plan(row, pos_offset, amb_offset, amb_map) matches Some(p) ==> plan_position(p) == (
            pos_offset,
            (pos_offset + 1) as usize,
            (pos_offset + 2) as usize,
        ),
        row.is_pr ==> spec_plan(row, pos_offset, amb_offset, amb_map) matches Some(FactorPlan::Pseudorange { .. }),
        !row.is_pr ==> (spec_plan(row, pos_offset, amb_offset, amb_map) is Some <==> (row.amb_idx is Some
            && map_lookup(amb_map, row.amb_idx->0) is Some && row.ref_amb_idx is Some && map_lookup(
            amb_map,
            row.ref_amb_idx->0,
        ) is Some)),
        !row.is_pr ==> !(spec_plan(row, pos_offset, amb_offset, amb_map) matches Some(FactorPlan::Pseudorange { .. })),
        spec_plan(row, pos_offset, amb_offset, amb_map) matches Some(FactorPlan::CarrierPhase {
            index_amb_sat,
            index_amb_ref,
            iono_pair,
            ..
        }) ==> {
            &&& index_amb_sat == amb_offset + map_lookup(amb_map, row.amb_idx->0)->0
            &&& index_amb_ref == amb_offset + map_lookup(amb_map, row.ref_amb_idx->0)->0
            &&& (iono_pair is Some <==> (row.iono_pair is Some && map_lookup(amb_map, (row.iono_pair->0).0) is Some
                && map_lookup(amb_map, (row.iono_pair->0).1) is Some))
            &&& (iono_pair matches Some((a, b)) ==> a == amb_offset + map_lookup(amb_map, (row.iono_pair->0).0)->0
                && b == amb_offset + map_lookup(amb_map, (row.iono_pair->0).1)->0)
        },
{
    if let Some(ai) = row.amb_idx {
        if (ai as int) < amb_map.len() {
            assert(amb_map[ai as int] matches Some(v) ==> amb_offset + v <= usize::MAX);
        }
    }
    if let Some(ri) = row.ref_amb_idx {
        if (ri as int) < amb_map.len() {
            assert(amb_map[ri as int] matches Some(v) ==> amb_offset + v <= usize::MAX);
        }
    }
    if let Some((si, ri)) = row.iono_pair {
        if (si as int) < amb_map.len() {
            assert(amb_map[si as int] matches Some(v) ==> amb_offset + v <= usize::MAX);
        }
        if (ri as int) < amb_map.len() {
            assert(amb_map[ri as int] matches Some(v) ==> amb_offset + v <= usize::MAX);
        }
    }
}

/// Every factor of an epoch reads that epoch's position block, at
/// `pos_offset`, and the epoch never gives more factors than rows.
pub proof fn lemma_epoch_factors_read_epoch_position(
    rows: Seq<DdRowLayout>,
    pos_offset: usize,
    amb_offset: usize,
    amb_map: Seq<Option<usize>>,
    n: int,
)
    requires
        0 <= n <= rows.len(),
        pos_offset + 2 <= usize::MAX,
        map_fits(amb_map, amb_offset),
    ensures
        spec_plans(rows, pos_offset, amb_offset, amb_map, n).len() <= n,
        forall|t: int|
            0 <= t < spec_plans(rows, pos_offset, amb_offset, amb_map, n).len() ==> plan_position(
                #[trigger] spec_plans(rows, pos_offset, amb_offset, amb_map, n)[t],
            ) == (pos_offset, (pos_offset + 1) as usize, (pos_offset + 2) as usize),
    decreases n,
{
    if n > 0 {
        lemma_epoch_factors_read_epoch_position(rows, pos_offset, amb_offset, amb_map, n - 1);
        lemma_plan_reads_row(rows[n - 1], pos_offset, amb_offset, amb_map);
        let prev = spec_plans(rows, pos_offset, amb_offset, amb_map, n - 1);
        let cur = spec_plans(rows, pos_offset, amb_offset, amb_map, n);
        if let Some(p) = spec_plan(rows[n - 1], pos_offset, amb_offset, amb_map) {
            assert(cur == prev.push(p));
            assert forall|t: int| 0 <= t < cur.len() implies plan_position(#[trigger] cur[t]) == (
                pos_offset,
                (pos_offset + 1) as usize,
                (pos_offset + 2) as usize,
            ) by {
                if t < prev.len() {
                    assert(cur[t] == prev[t]);
                }
            }
        }
    }
}

/// Dimension of the two-epoch factor graph over `n_amb` ambiguities, or
/// `None` when there is no ambiguity to estimate (the graph is not run).
pub fn factor_graph_dimension(n_amb: usize) -> (r: Option<usize>)
    ensures
        n_amb == 0 ==> r is None,
        n_amb > 0 && n_amb + DIM_BASE <= usize::MAX ==> r == Some((n_amb + DIM_BASE) as usize),
        n_amb + DIM_BASE > usize::MAX ==> r is None,
{
    if n_amb == 0 || n_amb > usize::MAX - DIM_BASE {
        None
    } else {
        Some(DIM_BASE + n_amb)
    }
}

} // verus!
