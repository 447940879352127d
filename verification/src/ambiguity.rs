use vstd::prelude::*;
use crate::sat::SatelliteId;

verus! {

/// An ambiguity state is keyed by satellite and frequency band
/// (band 3 marks an ionosphere state).
pub type AmbiguityKey = (SatelliteId, u8);

/// Band code that marks an ionosphere state among the ambiguity keys.
pub const IONO_BAND: u8 = 3;

/// Index of the first occurrence of `k` in `s`.
pub open spec fn first_index<K>(s: Seq<K>, k: K) -> Option<int>
    decreases s.len(),
{
    if s.len() == 0 {
        None
    } else if s[0] == k {
        Some(0)
    } else {
        match first_index(s.drop_first(), k) {
            Some(j) => Some(j + 1),
            None => None,
        }
    }
}

/// `first_index` finds the earliest occurrence, and finds none only when
/// the key is absent.
pub proof fn lemma_first_index<K>(s: Seq<K>, k: K)
    ensures
        match first_index(s, k) {
            Some(j) => 0 <= j < s.len() && s[j] == k && forall|t: int| 0 <= t < j ==> s[t] != k,
            None => forall|t: int| 0 <= t < s.len() ==> s[t] != k,
        },
    decreases s.len(),
{
    if s.len() > 0 && s[0] != k {
        lemma_first_index(s.drop_first(), k);
        assert forall|t: int| 1 <= t < s.len() implies s[t] == s.drop_first()[t - 1] by {}
    }
}

/// `o` holds the same index as `s`.
pub open spec fn same_index(o: Option<usize>, s: Option<int>) -> bool {
    match (o, s) {
        (Some(a), Some(b)) => a as int == b,
        (None, None) => true,
        _ => false,
    }
}

fn same_key(a: &AmbiguityKey, b: &AmbiguityKey) -> (r: bool)
    ensures
        r == (*a == *b),
{
    a.0 == b.0 && a.1 == b.1
}

/// Position of the first key equal to `key`.
pub fn position_of(keys: &Vec<AmbiguityKey>, key: &AmbiguityKey) -> (r: Option<usize>)
    ensures
        same_index(r, first_index(keys@, *key)),
{
    proof {
        lemma_first_index(keys@, *key);
    }
    let mut i: usize = 0;
    while i < keys.len()
        invariant
            i <= keys@.len(),
            forall|t: int| 0 <= t < i ==> keys@[t] != *key,
            match first_index(keys@, *key) {
                Some(j) => 0 <= j < keys@.len() && keys@[j] == *key && forall|t: int|
                    0 <= t < j ==> keys@[t] != *key,
                None => forall|t: int| 0 <= t < keys@.len() ==> keys@[t] != *key,
            },
        decreases keys@.len() - i,
    {
        if same_key(&keys[i], key) {
            return Some(i);
        }
        i = i + 1;
    }
    None
}

/// Maps each ambiguity index of a previous epoch to the index of the same
/// key among the current keys, or to `None` when the key was dropped.
pub fn build_ambiguity_map(prev_keys: &Vec<AmbiguityKey>, curr_keys: &Vec<AmbiguityKey>) -> (map:
    Vec<Option<usize>>)
    ensures
        map@.len() == prev_keys@.len(),
        forall|i: int|
            0 <= i < prev_keys@.len() ==> same_index(#[trigger] map@[i], first_index(curr_keys@, prev_keys@[i])),
{
    let mut map: Vec<Option<usize>> = Vec::new();
    let mut i: usize = 0;
    while i < prev_keys.len()
        invariant
            i <= prev_keys@.len(),
            map@.len() == i,
            forall|t: int|
                0 <= t < i ==> same_index(#[trigger] map@[t], first_index(curr_keys@, prev_keys@[t])),
        decreases prev_keys@.len() - i,
    {
        let p = position_of(curr_keys, &prev_keys[i]);
        map.push(p);
        i = i + 1;
    }
    map
}

/// The ambiguity map of an epoch onto itself: every index maps to itself.
pub fn build_identity_amb_map(n_amb: usize) -> (map: Vec<Option<usize>>)
    ensures
        map@.len() == n_amb,
        forall|i: int| 0 <= i < n_amb ==> #[trigger] map@[i] == Some(i as usize),
{
    let mut map: Vec<Option<usize>> = Vec::new();
    let mut i: usize = 0;
    while i < n_amb
        invariant
            i <= n_amb,
            map@.len() == i,
            forall|t: int| 0 <= t < i ==> #[trigger] map@[t] == Some(t as usize),
        decreases n_amb - i,
    {
        map.push(Some(i));
        i = i + 1;
    }
    map
}

/// Index at epoch k+1 to which ambiguity `i` of epoch k is carried: the
/// first position `j` of the same key at k+1, provided the two share a
/// track id and the k+1 estimate has converged.
pub open spec fn carried_index(
    keys_k: Seq<AmbiguityKey>,
    tracks_k: Seq<u64>,
    keys_k1: Seq<AmbiguityKey>,
    tracks_k1: Seq<u64>,
    converged_k1: Seq<bool>,
    i: int,
) -> Option<int> {
    match first_index(keys_k1, keys_k[i]) {
        Some(j) => if tracks_k[i] == tracks_k1[j] && converged_k1[j] {
            Some(j)
        } else {
            None
        },
        None => None,
    }
}

/// Index pairs `(i, carried_index(i))` over the first `n` ambiguities of
/// epoch k that are carried to epoch k+1, in order of `i`.
pub open spec fn matched_pairs(
    keys_k: Seq<AmbiguityKey>,
    tracks_k: Seq<u64>,
    keys_k1: Seq<AmbiguityKey>,
    tracks_k1: Seq<u64>,
    converged_k1: Seq<bool>,
    n: int,
) -> Seq<(int, int)>
    decreases n,
{
    if n <= 0 {
        seq![]
    } else {
        let prev = matched_pairs(keys_k, tracks_k, keys_k1, tracks_k1, converged_k1, n - 1);
        match carried_index(keys_k, tracks_k, keys_k1, tracks_k1, converged_k1, n - 1) {
            Some(j) => prev.push((n - 1, j)),
            None => prev,
        }
    }
}

/// Finds the ambiguities that can be smoothed across an epoch pair, as
/// full state-vector indices (`core_size` plus ambiguity index) at epoch k
/// and at epoch k+1. `converged_k1[j]` says whether ambiguity `j` of epoch
/// k+1 has a variance small enough to be smoothed.
pub fn find_matched_ambiguities(
    keys_k: &Vec<AmbiguityKey>,
    tracks_k: &Vec<u64>,
    keys_k1: &Vec<AmbiguityKey>,
    tracks_k1: &Vec<u64>,
    converged_k1: &Vec<bool>,
    core_size: usize,
) -> (r: (Vec<usize>, Vec<usize>))
    requires
        tracks_k@.len() == keys_k@.len(),
        tracks_k1@.len() == keys_k1@.len(),
        converged_k1@.len() == keys_k1@.len(),
        core_size + keys_k@.len() <= usize::MAX,
        core_size + keys_k1@.len() <= usize::MAX,
    ensures
        ({
            let pairs = matched_pairs(keys_k@, tracks_k@, keys_k1@, tracks_k1@, converged_k1@, keys_k@.len() as int);
            &&& r.0@.len() == pairs.len()
            &&& r.1@.len() == pairs.len()
            &&& forall|t: int| 0 <= t < pairs.len() ==> #[trigger] r.0@[t] == core_size + pairs[t].0
            &&& forall|t: int| 0 <= t < pairs.len() ==> #[trigger] r.1@[t] == core_size + pairs[t].1
        }),
        r.0@.len() == r.1@.len(),
        forall|s: int, t: int| 0 <= s < t < r.0@.len() ==> r.0@[s] < r.0@[t],
        forall|t: int|
            0 <= t < r.0@.len() ==> {
                let a = #[trigger] r.0@[t];
                let b = r.1@[t];
                let i = a - core_size;
                let j = b - core_size;
                &&& core_size <= a < core_size + keys_k@.len()
                &&& core_size <= b < core_size + keys_k1@.len()
                &&& keys_k@[i] == keys_k1@[j]
                &&& first_index(keys_k1@, keys_k@[i]) == Some(j)
                &&& tracks_k@[i] == tracks_k1@[j]
                &&& converged_k1@[j]
                &&& carried_index(keys_k@, tracks_k@, keys_k1@, tracks_k1@, converged_k1@, i) == Some(j)
            },
        forall|i: int|
            #![trigger carried_index(keys_k@, tracks_k@, keys_k1@, tracks_k1@, converged_k1@, i)]
            0 <= i < keys_k@.len() && carried_index(keys_k@, tracks_k@, keys_k1@, tracks_k1@, converged_k1@, i)
                is Some ==> exists|t: int|
                0 <= t < r.0@.len() && r.0@[t] == core_size + i && r.1@[t] == core_size
                    + carried_index(keys_k@, tracks_k@, keys_k1@, tracks_k1@, converged_k1@, i)->0,
{
    let mut mk: Vec<usize> = Vec::new();
    let mut mk1: Vec<usize> = Vec::new();
    let mut i: usize = 0;
    while i < keys_k.len()
        invariant
            i <= keys_k@.len(),
            tracks_k@.len() == keys_k@.len(),
            tracks_k1@.len() == keys_k1@.len(),
            converged_k1@.len() == keys_k1@.len(),
            core_size + keys_k@.len() <= usize::MAX,
            core_size + keys_k1@.len() <= usize::MAX,
            ({
                let pairs = matched_pairs(keys_k@, tracks_k@, keys_k1@, tracks_k1@, converged_k1@, i as int);
                &&& mk@.len() == pairs.len()
                &&& mk1@.len() == pairs.len()
                &&& forall|t: int| 0 <= t < pairs.len() ==> #[trigger] mk@[t] == core_size + pairs[t].0
                &&& forall|t: int| 0 <= t < pairs.len() ==> #[trigger] mk1@[t] == core_size + pairs[t].1
            }),
        decreases keys_k@.len() - i,
    {
        proof {
            lemma_first_index(keys_k1@, keys_k@[i as int]);
        }
        if let Some(j) = position_of(keys_k1, &keys_k[i]) {
            if tracks_k[i] == tracks_k1[j] && converged_k1[j] {
                mk.push(core_size + i);
                mk1.push(core_size + j);
            }
        }
        i = i + 1;
    }
    proof {
        let n = keys_k@.len() as int;
        let pairs = matched_pairs(keys_k@, tracks_k@, keys_k1@, tracks_k1@, converged_k1@, n);
        lemma_matched_pairs_consistent(keys_k@, tracks_k@, keys_k1@, tracks_k1@, converged_k1@, n);
        lemma_matched_pairs_complete(keys_k@, tracks_k@, keys_k1@, tracks_k1@, converged_k1@, n);
        assert forall|s: int, t: int| 0 <= s < t < mk@.len() implies mk@[s] < mk@[t] by {
            assert(pairs[s].0 < pairs[t].0);
        }
        assert forall|i: int|
            #![trigger carried_index(keys_k@, tracks_k@, keys_k1@, tracks_k1@, converged_k1@, i)]
            0 <= i < keys_k@.len() && carried_index(keys_k@, tracks_k@, keys_k1@, tracks_k1@, converged_k1@, i)
                is Some implies exists|t: int|
                0 <= t < mk@.len() && mk@[t] == core_size + i && mk1@[t] == core_size
                    + carried_index(keys_k@, tracks_k@, keys_k1@, tracks_k1@, converged_k1@, i)->0 by {
            let j = carried_index(keys_k@, tracks_k@, keys_k1@, tracks_k1@, converged_k1@, i)->0;
            let t = choose|t: int| 0 <= t < pairs.len() && pairs[t] == (i, j);
            assert(mk@[t] == core_size + i && mk1@[t] == core_size + j);
        }
    }
    (mk, mk1)
}

/// Every ambiguity of epoch k that is carried to epoch k+1 appears among
/// the matched pairs, together with the index it is carried to.
pub proof fn lemma_matched_pairs_complete(
    keys_k: Seq<AmbiguityKey>,
    tracks_k: Seq<u64>,
    keys_k1: Seq<AmbiguityKey>,
    tracks_k1: Seq<u64>,
    converged_k1: Seq<bool>,
    n: int,
)
    requires
        0 <= n <= keys_k.len(),
    ensures
        forall|i: int|
            #![trigger carried_index(keys_k, tracks_k, keys_k1, tracks_k1, converged_k1, i)]
            0 <= i < n && carried_index(keys_k, tracks_k, keys_k1, tracks_k1, converged_k1, i) is Some
                ==> exists|t: int|
                0 <= t < matched_pairs(keys_k, tracks_k, keys_k1, tracks_k1, converged_k1, n).len()
                    && matched_pairs(keys_k, tracks_k, keys_k1, tracks_k1, converged_k1, n)[t] == (
                    i,
                    carried_index(keys_k, tracks_k, keys_k1, tracks_k1, converged_k1, i)->0,
                ),
    decreases n,
{
    if n > 0 {
        lemma_matched_pairs_complete(keys_k, tracks_k, keys_k1, tracks_k1, converged_k1, n - 1);
        let prev = matched_pairs(keys_k, tracks_k, keys_k1, tracks_k1, converged_k1, n - 1);
        let cur = matched_pairs(keys_k, tracks_k, keys_k1, tracks_k1, converged_k1, n);
        assert forall|i: int|
            #![trigger carried_index(keys_k, tracks_k, keys_k1, tracks_k1, converged_k1, i)]
            0 <= i < n && carried_index(keys_k, tracks_k, keys_k1, tracks_k1, converged_k1, i) is Some
                implies exists|t: int|
                0 <= t < cur.len() && cur[t] == (
                    i,
                    carried_index(keys_k, tracks_k, keys_k1, tracks_k1, converged_k1, i)->0,
                ) by {
            let j = carried_index(keys_k, tracks_k, keys_k1, tracks_k1, converged_k1, i)->0;
            if i < n - 1 {
                let t = choose|t: int| 0 <= t < prev.len() && prev[t] == (i, j);
                assert(cur[t] == prev[t]);
            } else {
                assert(cur == prev.push((i, j)));
                assert(cur[prev.len() as int] == (i, j));
            }
        }
    }
}

/// Every matched pair joins ambiguities of the same key and track id, the
/// later one is the first occurrence of its key and has converged, and the
/// pairs come in strictly increasing order of the earlier index.
pub proof fn lemma_matched_pairs_consistent(
    keys_k: Seq<AmbiguityKey>,
    tracks_k: Seq<u64>,
    keys_k1: Seq<AmbiguityKey>,
    tracks_k1: Seq<u64>,
    converged_k1: Seq<bool>,
    n: int,
)
    requires
        0 <= n <= keys_k.len(),
    ensures
        ({
            let pairs = matched_pairs(keys_k, tracks_k, keys_k1, tracks_k1, converged_k1, n);
            &&& forall|t: int|
                0 <= t < pairs.len() ==> {
                    let (i, j) = #[trigger] pairs[t];
                    &&& 0 <= i < n
                    &&& 0 <= j < keys_k1.len()
                    &&& keys_k[i] == keys_k1[j]
                    &&& tracks_k[i] == tracks_k1[j]
                    &&& converged_k1[j]
                    &&& first_index(keys_k1, keys_k[i]) == Some(j)
                }
            &&& forall|s: int, t: int| 0 <= s < t < pairs.len() ==> pairs[s].0 < pairs[t].0
        }),
    decreases n,
{
    if n > 0 {
        lemma_matched_pairs_consistent(keys_k, tracks_k, keys_k1, tracks_k1, converged_k1, n - 1);
        lemma_first_index(keys_k1, keys_k[n - 1]);
    }
}

/// Sign of one entry of a measurement-model row, as far as the ambiguity
/// bookkeeping needs it (entries below the zero tolerance count as zero).
#[derive(Clone, Copy, Debug, PartialEq, Eq, Structural)]
pub enum ColumnSign {
    Zero,
    Positive,
    Negative,
}

/// Last ambiguity column `t < n` (with a key) whose sign is `want` and
/// which is (or is not, per `iono`) an ionosphere state.
pub open spec fn last_column_where(
    signs: Seq<ColumnSign>,
    keys: Seq<AmbiguityKey>,
    n: int,
    want: ColumnSign,
    iono: bool,
) -> Option<int>
    decreases n,
{
    if n <= 0 {
        None
    } else {
        let t = n - 1;
        if t < signs.len() && t < keys.len() && signs[t] == want && (keys[t].1 == IONO_BAND) == iono {
            Some(t)
        } else {
            last_column_where(signs, keys, n - 1, want, iono)
        }
    }
}

/// Layout of one double-difference measurement row: which satellites it
/// differences, whether it is a pseudorange, its band, and which ambiguity
/// and ionosphere states it touches.
#[derive(Clone, Copy, Debug, PartialEq, Eq)]
pub struct DdRowLayout {
    pub sat_id: SatelliteId,
    pub ref_sat_id: SatelliteId,
    pub is_pr: bool,
    pub freq_band: u8,
    pub amb_idx: Option<usize>,
    pub ref_amb_idx: Option<usize>,
    /// Ionosphere states of the satellite and of the reference satellite.
    pub iono_pair: Option<(usize, usize)>,
}

/// Band of a measurement type code: pseudorange L1 (0), carrier phase L1
/// (1), carrier phase L2 (2), anything else counts as L1.
pub open spec fn band_of_type(type_code: u8) -> u8 {
    if type_code == 2 {
        2
    } else {
        1
    }
}

/// What `describe_dd_row` returns, stated directly.
pub open spec fn spec_dd_row(
    sat_id: SatelliteId,
    type_code: u8,
    signs: Seq<ColumnSign>,
    keys: Seq<AmbiguityKey>,
    r: DdRowLayout,
) -> bool {
    let is_pr = type_code == 0;
    let n = if is_pr { 0 } else { signs.len() as int };
    let amb = last_column_where(signs, keys, n, ColumnSign::Positive, false);
    let ref_amb = last_column_where(signs, keys, n, ColumnSign::Negative, false);
    let iono_sat = last_column_where(signs, keys, n, ColumnSign::Positive, true);
    let iono_ref = last_column_where(signs, keys, n, ColumnSign::Negative, true);
    &&& r.sat_id == sat_id
    &&& r.is_pr == is_pr
    &&& r.freq_band == band_of_type(type_code)
    &&& same_index(r.amb_idx, amb)
    &&& same_index(r.ref_amb_idx, ref_amb)
    &&& r.ref_sat_id == (match ref_amb {
        Some(ri) => keys[ri].0,
        None => sat_id,
    })
    &&& (match (iono_sat, iono_ref) {
        (Some(si), Some(ri)) => r.iono_pair == Some((si as usize, ri as usize)),
        _ => r.iono_pair is None,
    })
}

/// Reads the layout of a measurement row. `signs[t]` is the sign of the
/// row's entry in the column of ambiguity state `t`; a pseudorange row
/// (type code 0) touches no ambiguity. A positive entry marks the
/// satellite's state, a negative one the reference satellite's; when
/// several columns qualify, the last one counts.
pub fn describe_dd_row(
    sat_id: SatelliteId,
    type_code: u8,
    signs: &Vec<ColumnSign>,
    keys: &Vec<AmbiguityKey>,
) -> (r: DdRowLayout)
    ensures
        spec_dd_row(sat_id, type_code, signs@, keys@, r),
        r.sat_id == sat_id,
        r.is_pr == (type_code == 0),
        r.freq_band == (if type_code == 2 {
            2u8
        } else {
            1u8
        }),
        r.is_pr ==> r.amb_idx is None && r.ref_amb_idx is None && r.iono_pair is None && r.ref_sat_id == sat_id,
        r.amb_idx matches Some(t) ==> column_qualifies(signs@, keys@, t as int, ColumnSign::Positive, false)
            && forall|u: int|
            t < u < signs@.len() ==> !#[trigger] column_qualifies(signs@, keys@, u, ColumnSign::Positive, false),
        !r.is_pr && r.amb_idx is None ==> forall|u: int|
            0 <= u < signs@.len() ==> !#[trigger] column_qualifies(signs@, keys@, u, ColumnSign::Positive, false),
        r.ref_amb_idx matches Some(t) ==> column_qualifies(signs@, keys@, t as int, ColumnSign::Negative, false)
            && r.ref_sat_id == keys@[t as int].0 && forall|u: int|
            t < u < signs@.len() ==> !#[trigger] column_qualifies(signs@, keys@, u, ColumnSign::Negative, false),
        !r.is_pr && r.ref_amb_idx is None ==> r.ref_sat_id == sat_id && forall|u: int|
            0 <= u < signs@.len() ==> !#[trigger] column_qualifies(signs@, keys@, u, ColumnSign::Negative, false),
        r.iono_pair matches Some((a, b)) ==> column_qualifies(signs@, keys@, a as int, ColumnSign::Positive, true)
            && column_qualifies(signs@, keys@, b as int, ColumnSign::Negative, true),
{
    proof {
        let n = if type_code == 0 {
            0
        } else {
            signs@.len() as int
        };
        lemma_last_column_is_last(signs@, keys@, n, ColumnSign::Positive, false);
        lemma_last_column_is_last(signs@, keys@, n, ColumnSign::Negative, false);
        lemma_last_column_is_last(signs@, keys@, n, ColumnSign::Positive, true);
        lemma_last_column_is_last(signs@, keys@, n, ColumnSign::Negative, true);
    }
    let is_pr = type_code == 0;
    let freq_band: u8 = if type_code == 2 {
        2
    } else {
        1
    };
    let mut amb_idx: Option<usize> = None;
    let mut ref_amb_idx: Option<usize> = None;
    let mut iono_sat_idx: Option<usize> = None;
    let mut iono_ref_idx: Option<usize> = None;
    if !is_pr {
        let mut t: usize = 0;
        while t < signs.len()
            invariant
                t <= signs@.len(),
                same_index(amb_idx, last_column_where(signs@, keys@, t as int, ColumnSign::Positive, false)),
                same_index(ref_amb_idx, last_column_where(signs@, keys@, t as int, ColumnSign::Negative, false)),
                same_index(iono_sat_idx, last_column_where(signs@, keys@, t as int, ColumnSign::Positive, true)),
                same_index(iono_ref_idx, last_column_where(signs@, keys@, t as int, ColumnSign::Negative, true)),
            decreases signs@.len() - t,
        {
            let sign = signs[t];
            if t < keys.len() && sign != ColumnSign::Zero {
                let iono = keys[t].1 == IONO_BAND;
                if iono {
                    if sign == ColumnSign::Positive {
                        iono_sat_idx = Some(t);
                    } else {
                        iono_ref_idx = Some(t);
                    }
                } else if sign == ColumnSign::Positive {
                    amb_idx = Some(t);
                } else {
                    ref_amb_idx = Some(t);
                }
            }
            t = t + 1;
        }
    }
    proof {
        lemma_last_column_in_range(signs@, keys@, if is_pr { 0 } else { signs@.len() as int }, ColumnSign::Negative, false);
    }
    let ref_sat_id = match ref_amb_idx {
        Some(ri) => keys[ri].0,
        None => sat_id,
    };
    let iono_pair = match (iono_sat_idx, iono_ref_idx) {
        (Some(si), Some(ri)) => Some((si, ri)),
        _ => None,
    };
    DdRowLayout { sat_id, ref_sat_id, is_pr, freq_band, amb_idx, ref_amb_idx, iono_pair }
}

/// A column found by `last_column_where` is a column with a key and the
/// requested sign and kind.
pub proof fn lemma_last_column_in_range(
    signs: Seq<ColumnSign>,
    keys: Seq<AmbiguityKey>,
    n: int,
    want: ColumnSign,
    iono: bool,
)
    ensures
        last_column_where(signs, keys, n, want, iono) matches Some(t) ==> {
            &&& 0 <= t < n
            &&& t < signs.len()
            &&& t < keys.len()
            &&& signs[t] == want
            &&& (keys[t].1 == IONO_BAND) == iono
        },
    decreases n,
{
    if n > 0 {
        lemma_last_column_in_range(signs, keys, n - 1, want, iono);
    }
}

/// Column `u` qualifies: it has a key, the requested sign, and is (or is
/// not, per `iono`) an ionosphere state.
pub open spec fn column_qualifies(
    signs: Seq<ColumnSign>,
    keys: Seq<AmbiguityKey>,
    u: int,
    want: ColumnSign,
    iono: bool,
) -> bool {
    0 <= u < signs.len() && u < keys.len() && signs[u] == want && (keys[u].1 == IONO_BAND) == iono
}

/// `last_column_where` finds the last qualifying column below `n`: the one
/// it names qualifies and no later one below `n` does, and it finds none
/// exactly when no column below `n` qualifies.
pub proof fn lemma_last_column_is_last(
    signs: Seq<ColumnSign>,
    keys: Seq<AmbiguityKey>,
    n: int,
    want: ColumnSign,
    iono: bool,
)
    ensures
        last_column_where(signs, keys, n, want, iono) matches Some(t) ==> {
            &&& 0 <= t < n
            &&& column_qualifies(signs, keys, t, want, iono)
            &&& forall|u: int| t < u < n ==> !#[trigger] column_qualifies(signs, keys, u, want, iono)
        },
        last_column_where(signs, keys, n, want, iono) is None ==> forall|u: int|
            0 <= u < n ==> !#[trigger] column_qualifies(signs, keys, u, want, iono),
    decreases n,
{
    if n > 0 {
        lemma_last_column_is_last(signs, keys, n - 1, want, iono);
    }
}

} // verus!
