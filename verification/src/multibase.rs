use vstd::prelude::*;
use crate::control::MIN_MATCHED_OBS;

verus! {

/// How the kinematic processor handles the base stations of an epoch.
#[derive(Clone, Copy, Debug, PartialEq, Eq, Structural)]
pub enum BaseRoute {
    /// No base: single-base processing without base observations.
    NoBase,
    /// One base: single-base processing with it.
    SingleBase,
    /// Several bases: independent fixes, combined.
    MultiBase,
}

/// Routes an epoch by its number of base stations.
pub fn multi_base_route(n_bases: usize) -> (r: BaseRoute)
    ensures
        r == (if n_bases == 0 {
            BaseRoute::NoBase
        } else if n_bases == 1 {
            BaseRoute::SingleBase
        } else {
            BaseRoute::MultiBase
        }),
{
    if n_bases == 0 {
        BaseRoute::NoBase
    } else if n_bases == 1 {
        BaseRoute::SingleBase
    } else {
        BaseRoute::MultiBase
    }
}

/// Best matched count and primary base among the first `n` bases. A base
/// takes part when it is recent (`Some`) and matches at least five
/// satellites; a base becomes primary when it matches strictly more than
/// every earlier one (so the first of equal counts wins).
pub open spec fn spec_primary(counts: Seq<Option<usize>>, n: int) -> (usize, usize)
    decreases n,
{
    if n <= 0 {
        (0, 0)
    } else {
        let (best, primary) = spec_primary(counts, n - 1);
        match counts[n - 1] {
            Some(c) => if c >= MIN_MATCHED_OBS && c > best {
                (c, (n - 1) as usize)
            } else {
                (best, primary)
            },
            None => (best, primary),
        }
    }
}

/// Picks the primary base: the one with the most matched satellites
/// (`counts[i]` is `None` for a base too old to use). Defaults to base 0.
pub fn select_primary_base(counts: &Vec<Option<usize>>) -> (r: usize)
    ensures
        r == spec_primary(counts@, counts@.len() as int).1,
        (forall|i: int| 0 <= i < counts@.len() ==> !(#[trigger] counts@[i] is Some && counts@[i]->0 >= MIN_MATCHED_OBS))
            ==> r == 0,
        (exists|i: int| 0 <= i < counts@.len() && #[trigger] counts@[i] is Some && counts@[i]->0 >= MIN_MATCHED_OBS)
            ==> {
            &&& r < counts@.len()
            &&& counts@[r as int] is Some && counts@[r as int]->0 >= MIN_MATCHED_OBS
            &&& forall|i: int|
                0 <= i < counts@.len() && #[trigger] counts@[i] is Some && counts@[i]->0 >= MIN_MATCHED_OBS
                    ==> counts@[i]->0 <= counts@[r as int]->0
            &&& forall|i: int|
                0 <= i < r && #[trigger] counts@[i] is Some && counts@[i]->0 >= MIN_MATCHED_OBS ==> counts@[i]->0
                    < counts@[r as int]->0
        },
{
    let mut best: usize = 0;
    let mut primary: usize = 0;
    let mut i: usize = 0;
    while i < counts.len()
        invariant
            i <= counts@.len(),
            (best, primary) == spec_primary(counts@, i as int),
        decreases counts@.len() - i,
    {
        if let Some(c) = counts[i] {
            if c >= MIN_MATCHED_OBS && c > best {
                best = c;
                primary = i;
            }
        }
        i = i + 1;
    }
    proof {
        lemma_primary_is_best(counts@, counts@.len() as int);
    }
    primary
}

/// The primary base, when some base takes part, takes part itself and
/// matches at least as many satellites as every base that takes part.
pub proof fn lemma_primary_is_best(counts: Seq<Option<usize>>, n: int)
    requires
        0 <= n <= counts.len(),
        counts.len() <= usize::MAX,
    ensures
        ({
            let (best, p) = spec_primary(counts, n);
            &&& best == 0 || (0 <= p < n && counts[p as int] == Some(best) && best >= MIN_MATCHED_OBS)
            &&& forall|i: int|
                0 <= i < n && #[trigger] counts[i] is Some && counts[i]->0 >= MIN_MATCHED_OBS ==> counts[i]->0 <= best
            &&& forall|i: int|
                0 <= i < p && #[trigger] counts[i] is Some && counts[i]->0 >= MIN_MATCHED_OBS ==> counts[i]->0 < best
            &&& best == 0 ==> p == 0
            &&& (best == 0 <==> forall|i: int|
                0 <= i < n ==> !(#[trigger] counts[i] is Some && counts[i]->0 >= MIN_MATCHED_OBS))
        }),
    decreases n,
{
    if n > 0 {
        lemma_primary_is_best(counts, n - 1);
        let (best0, p0) = spec_primary(counts, n - 1);
        let (best, p) = spec_primary(counts, n);
        if counts[n - 1] is Some && counts[n - 1]->0 >= MIN_MATCHED_OBS && counts[n - 1]->0 > best0 {
            assert(p as int == n - 1);
            assert(counts[p as int] == Some(best));
        } else {
            assert(best == best0 && p == p0);
        }
    }
}

/// Indices, in order, of the first `n` bases that produced an ambiguity fix.
pub open spec fn spec_fixed(is_fixed: Seq<bool>, n: int) -> Seq<usize>
    decreases n,
{
    if n <= 0 {
        seq![]
    } else {
        let prev = spec_fixed(is_fixed, n - 1);
        if is_fixed[n - 1] {
            prev.push((n - 1) as usize)
        } else {
            prev
        }
    }
}

/// The fixed-base list names exactly the bases with a fix, each once, in
/// increasing order.
pub proof fn lemma_fixed_exactly(is_fixed: Seq<bool>, n: int)
    requires
        0 <= n <= is_fixed.len(),
        n <= usize::MAX,
    ensures
        forall|t: int| 0 <= t < spec_fixed(is_fixed, n).len() ==> #[trigger] spec_fixed(is_fixed, n)[t] < n,
        forall|s: int, t: int|
            0 <= s < t < spec_fixed(is_fixed, n).len() ==> #[trigger] spec_fixed(is_fixed, n)[s]
                < #[trigger] spec_fixed(is_fixed, n)[t],
        forall|i: int| 0 <= i < n ==> (spec_fixed(is_fixed, n).contains(i as usize) <==> #[trigger] is_fixed[i]),
    decreases n,
{
    if n > 0 {
        lemma_fixed_exactly(is_fixed, n - 1);
        let prev = spec_fixed(is_fixed, n - 1);
        let cur = spec_fixed(is_fixed, n);
        let k = n - 1;
        if is_fixed[k] {
            assert(cur == prev.push(k as usize));
            assert(cur[prev.len() as int] == k as usize);
            assert forall|i: int| 0 <= i < n implies (cur.contains(i as usize) <==> #[trigger] is_fixed[i]) by {
                if i < k {
                    if prev.contains(i as usize) {
                        let t = choose|t: int| 0 <= t < prev.len() && prev[t] == i as usize;
                        assert(cur[t] == prev[t]);
                    }
                    if cur.contains(i as usize) {
                        let t = choose|t: int| 0 <= t < cur.len() && cur[t] == i as usize;
                        if t < prev.len() {
                            assert(prev[t] == cur[t]);
                        }
                    }
                }
            }
        } else {
            assert(cur == prev);
            assert(!cur.contains(k as usize));
        }
    }
}

/// Lists the bases whose solution is ambiguity-fixed.
pub fn fixed_base_indices(is_fixed: &Vec<bool>) -> (r: Vec<usize>)
    ensures
        r@ == spec_fixed(is_fixed@, is_fixed@.len() as int),
        forall|t: int| 0 <= t < r@.len() ==> #[trigger] r@[t] < is_fixed@.len(),
        forall|s: int, t: int| 0 <= s < t < r@.len() ==> #[trigger] r@[s] < #[trigger] r@[t],
        forall|i: int| 0 <= i < is_fixed@.len() ==> (r@.contains(i as usize) <==> #[trigger] is_fixed@[i]),
{
    let mut r: Vec<usize> = Vec::new();
    let mut i: usize = 0;
    while i < is_fixed.len()
        invariant
            i <= is_fixed@.len(),
            r@ == spec_fixed(is_fixed@, i as int),
        decreases is_fixed@.len() - i,
    {
        if is_fixed[i] {
            r.push(i);
        }
        i = i + 1;
    }
    proof {
        lemma_fixed_exactly(is_fixed@, is_fixed@.len() as int);
    }
    r
}

/// Whether cross-base validation runs: it must be enabled and at least two
/// bases must have produced a solution.
pub fn cross_base_applies(enabled: bool, n_solutions: usize) -> (b: bool)
    ensures
        b == (enabled && n_solutions >= 2),
{
    enabled && n_solutions >= 2
}

/// Whether `idx` agrees with some base already in the set.
pub open spec fn agrees_with_any(agreed: Seq<usize>, idx: usize, agrees: Seq<Seq<bool>>) -> bool {
    exists|k: int| 0 <= k < agreed.len() && agrees[idx as int][#[trigger] agreed[k] as int]
}

/// The agreeing set after considering the first `n` fixed bases, grown from
/// the closest pair: a base joins when it agrees with a base already in the
/// set.
pub open spec fn spec_agreement(
    fixed: Seq<usize>,
    seed: (usize, usize),
    agrees: Seq<Seq<bool>>,
    n: int,
) -> Seq<usize>
    decreases n,
{
    if n <= 0 {
        seq![seed.0, seed.1]
    } else {
        let prev = spec_agreement(fixed, seed, agrees, n - 1);
        let idx = fixed[n - 1];
        if prev.contains(idx) {
            prev
        } else if agrees_with_any(prev, idx, agrees) {
            prev.push(idx)
        } else {
            prev
        }
    }
}

/// Grows the set of mutually consistent fixes from the closest agreeing
/// pair `seed`. `agrees[i][j]` says whether the fixes of bases `i` and `j`
/// lie within the agreement threshold of each other.
pub fn grow_agreement(fixed: &Vec<usize>, seed: (usize, usize), agrees: &Vec<Vec<bool>>) -> (r: Vec<usize>)
    requires
        seed.0 < agrees@.len(),
        seed.1 < agrees@.len(),
        forall|i: int| 0 <= i < fixed@.len() ==> #[trigger] fixed@[i] < agrees@.len(),
        forall|i: int| 0 <= i < agrees@.len() ==> #[trigger] agrees@[i]@.len() == agrees@.len(),
    ensures
        r@ == spec_agreement(fixed@, seed, agrees@.map_values(|row: Vec<bool>| row@), fixed@.len() as int),
        r@.contains(seed.0),
        r@.contains(seed.1),
        forall|t: int| 2 <= t < r@.len() ==> fixed@.contains(#[trigger] r@[t]),
        forall|t: int|
            0 <= t < fixed@.len() && (agrees@[fixed@[t] as int]@[seed.0 as int] || agrees@[fixed@[t] as int]@[seed.1 as int])
                ==> r@.contains(#[trigger] fixed@[t]),
{
    let ghost m = agrees@.map_values(|row: Vec<bool>| row@);
    let mut agreed: Vec<usize> = Vec::new();
    agreed.push(seed.0);
    agreed.push(seed.1);
    assert(agreed@ =~= seq![seed.0, seed.1]);
    let mut i: usize = 0;
    while i < fixed.len()
        invariant
            i <= fixed@.len(),
            m == agrees@.map_values(|row: Vec<bool>| row@),
            seed.0 < agrees@.len(),
            seed.1 < agrees@.len(),
            forall|t: int| 0 <= t < fixed@.len() ==> #[trigger] fixed@[t] < agrees@.len(),
            forall|t: int| 0 <= t < agrees@.len() ==> #[trigger] agrees@[t]@.len() == agrees@.len(),
            agreed@ == spec_agreement(fixed@, seed, m, i as int),
            forall|t: int| 0 <= t < agreed@.len() ==> #[trigger] agreed@[t] < agrees@.len(),
        decreases fixed@.len() - i,
    {
        let idx = fixed[i];
        let mut present = false;
        let mut joins = false;
        let mut k: usize = 0;
        while k < agreed.len()
            invariant
                k <= agreed@.len(),
                idx < agrees@.len(),
                m == agrees@.map_values(|row: Vec<bool>| row@),
                forall|t: int| 0 <= t < agrees@.len() ==> #[trigger] agrees@[t]@.len() == agrees@.len(),
                forall|t: int| 0 <= t < agreed@.len() ==> #[trigger] agreed@[t] < agrees@.len(),
                present == (exists|t: int| 0 <= t < k && agreed@[t] == idx),
                joins == (exists|t: int| 0 <= t < k && m[idx as int][#[trigger] agreed@[t] as int]),
            decreases agreed@.len() - k,
        {
            let a = agreed[k];
            if a == idx {
                present = true;
            }
            assert(m[idx as int] == agrees@[idx as int]@);
            if agrees[idx][a] {
                joins = true;
            }
            proof {
                if agrees@[idx as int]@[a as int] {
                    assert(m[idx as int][agreed@[k as int] as int]);
                }
            }
            k = k + 1;
        }
        proof {
            assert(present == agreed@.contains(idx));
            assert(joins == agrees_with_any(agreed@, idx, m));
        }
        if !present && joins {
            agreed.push(idx);
        }
        i = i + 1;
    }
    proof {
        lemma_agreement_includes_seed_neighbours(fixed@, seed, m, fixed@.len() as int);
        lemma_agreement_members_fixed(fixed@, seed, m, fixed@.len() as int);
        assert forall|t: int|
            0 <= t < fixed@.len() && (agrees@[fixed@[t] as int]@[seed.0 as int] || agrees@[fixed@[t] as int]@[seed.1 as int])
                implies agreed@.contains(#[trigger] fixed@[t]) by {
            assert(m[fixed@[t] as int] == agrees@[fixed@[t] as int]@);
        }
    }
    agreed
}

/// The agreeing set starts with the seed pair, and every base added after
/// it agrees with a base that joined earlier and appears only once.
pub proof fn lemma_agreement_grows_consistently(
    fixed: Seq<usize>,
    seed: (usize, usize),
    agrees: Seq<Seq<bool>>,
    n: int,
)
    requires
        0 <= n <= fixed.len(),
    ensures
        ({
            let r = spec_agreement(fixed, seed, agrees, n);
            &&& r.len() >= 2
            &&& r[0] == seed.0
            &&& r[1] == seed.1
            &&& forall|t: int| 2 <= t < r.len() ==> {
                &&& exists|k: int| 0 <= k < t && agrees[r[t] as int][#[trigger] r[k] as int]
                &&& forall|k: int| 0 <= k < t ==> r[k] != #[trigger] r[t]
            }
        }),
    decreases n,
{
    if n > 0 {
        lemma_agreement_grows_consistently(fixed, seed, agrees, n - 1);
        let prev = spec_agreement(fixed, seed, agrees, n - 1);
        let idx = fixed[n - 1];
        let r = spec_agreement(fixed, seed, agrees, n);
        if !prev.contains(idx) && agrees_with_any(prev, idx, agrees) {
            assert forall|t: int| 2 <= t < r.len() implies {
                &&& exists|k: int| 0 <= k < t && agrees[r[t] as int][#[trigger] r[k] as int]
                &&& forall|k: int| 0 <= k < t ==> r[k] != #[trigger] r[t]
            } by {
                if t < prev.len() {
                    let k0 = choose|k: int| 0 <= k < t && agrees[prev[t] as int][#[trigger] prev[k] as int];
                    assert(r[k0] == prev[k0]);
                } else {
                    let k0 = choose|k: int| 0 <= k < prev.len() && agrees[idx as int][#[trigger] prev[k] as int];
                    assert(r[k0] == prev[k0]);
                    assert forall|k: int| 0 <= k < t implies r[k] != #[trigger] r[t] by {
                        assert(r[k] == prev[k]);
                    }
                }
            }
        }
    }
}

/// Growing the set only appends: the set after the first `t` fixed bases
/// is a prefix of the set after the first `n`.
pub proof fn lemma_agreement_prefix(
    fixed: Seq<usize>,
    seed: (usize, usize),
    agrees: Seq<Seq<bool>>,
    t: int,
    n: int,
)
    requires
        0 <= t <= n <= fixed.len(),
    ensures
        spec_agreement(fixed, seed, agrees, t).len() <= spec_agreement(fixed, seed, agrees, n).len(),
        forall|k: int|
            0 <= k < spec_agreement(fixed, seed, agrees, t).len() ==> #[trigger] spec_agreement(fixed, seed, agrees, n)[k]
                == spec_agreement(fixed, seed, agrees, t)[k],
    decreases n - t,
{
    if t < n {
        lemma_agreement_prefix(fixed, seed, agrees, t, n - 1);
        let prev = spec_agreement(fixed, seed, agrees, n - 1);
        let cur = spec_agreement(fixed, seed, agrees, n);
        assert forall|k: int| 0 <= k < prev.len() implies #[trigger] cur[k] == prev[k] by {
            if cur != prev {
                assert(cur == prev.push(fixed[n - 1]));
            }
        }
    }
}

/// No fixed base that agrees with the set when it is examined is left out:
/// if base `fixed[t]` agrees with some base already in the set grown from
/// the first `t` fixed bases, it is in the final set.
pub proof fn lemma_agreement_complete(
    fixed: Seq<usize>,
    seed: (usize, usize),
    agrees: Seq<Seq<bool>>,
    n: int,
    t: int,
)
    requires
        0 <= t < n <= fixed.len(),
        exists|k: int|
            0 <= k < spec_agreement(fixed, seed, agrees, t).len() && agrees[fixed[t] as int][#[trigger] spec_agreement(
                fixed,
                seed,
                agrees,
                t,
            )[k] as int],
    ensures
        spec_agreement(fixed, seed, agrees, n).contains(fixed[t]),
{
    let before = spec_agreement(fixed, seed, agrees, t);
    let after = spec_agreement(fixed, seed, agrees, t + 1);
    let idx = fixed[t];
    let k0 = choose|k: int| 0 <= k < before.len() && agrees[idx as int][#[trigger] before[k] as int];
    assert(agrees_with_any(before, idx, agrees));
    let j: int = if before.contains(idx) {
        choose|j: int| 0 <= j < before.len() && before[j] == idx
    } else {
        assert(after == before.push(idx));
        before.len() as int
    };
    assert(after[j] == idx);
    lemma_agreement_prefix(fixed, seed, agrees, t, t + 1);
    lemma_agreement_prefix(fixed, seed, agrees, t + 1, n);
    assert(spec_agreement(fixed, seed, agrees, n)[j] == idx);
}

/// The seed pair stays in the set, and every fixed base that agrees with
/// either base of the seed pair ends up in it.
pub proof fn lemma_agreement_includes_seed_neighbours(
    fixed: Seq<usize>,
    seed: (usize, usize),
    agrees: Seq<Seq<bool>>,
    n: int,
)
    requires
        0 <= n <= fixed.len(),
    ensures
        spec_agreement(fixed, seed, agrees, n).contains(seed.0),
        spec_agreement(fixed, seed, agrees, n).contains(seed.1),
        forall|t: int|
            0 <= t < n && (agrees[fixed[t] as int][seed.0 as int] || agrees[fixed[t] as int][seed.1 as int])
                ==> spec_agreement(fixed, seed, agrees, n).contains(#[trigger] fixed[t]),
{
    lemma_agreement_prefix(fixed, seed, agrees, 0, n);
    assert(spec_agreement(fixed, seed, agrees, n)[0] == seed.0);
    assert(spec_agreement(fixed, seed, agrees, n)[1] == seed.1);
    assert forall|t: int|
        0 <= t < n && (agrees[fixed[t] as int][seed.0 as int] || agrees[fixed[t] as int][seed.1 as int])
            implies spec_agreement(fixed, seed, agrees, n).contains(#[trigger] fixed[t]) by {
        lemma_agreement_prefix(fixed, seed, agrees, 0, t);
        let a = spec_agreement(fixed, seed, agrees, t);
        assert(a[0] == seed.0 && a[1] == seed.1);
        if agrees[fixed[t] as int][seed.0 as int] {
            assert(agrees[fixed[t] as int][a[0] as int]);
        } else {
            assert(agrees[fixed[t] as int][a[1] as int]);
        }
        lemma_agreement_complete(fixed, seed, agrees, n, t);
    }
}

/// Besides the seed pair, the set holds only fixed bases.
pub proof fn lemma_agreement_members_fixed(
    fixed: Seq<usize>,
    seed: (usize, usize),
    agrees: Seq<Seq<bool>>,
    n: int,
)
    requires
        0 <= n <= fixed.len(),
    ensures
        forall|t: int|
            2 <= t < spec_agreement(fixed, seed, agrees, n).len() ==> fixed.contains(
                #[trigger] spec_agreement(fixed, seed, agrees, n)[t],
            ),
    decreases n,
{
    if n > 0 {
        lemma_agreement_members_fixed(fixed, seed, agrees, n - 1);
        let prev = spec_agreement(fixed, seed, agrees, n - 1);
        let cur = spec_agreement(fixed, seed, agrees, n);
        assert forall|t: int| 2 <= t < cur.len() implies fixed.contains(#[trigger] cur[t]) by {
            if cur != prev {
                assert(cur == prev.push(fixed[n - 1]));
                if t < prev.len() {
                    assert(cur[t] == prev[t]);
                } else {
                    assert(cur[t] == fixed[n - 1]);
                }
            }
        }
    }
}

} // verus!
