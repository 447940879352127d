use vstd::prelude::*;

verus! {

/// Integer ambiguities recovered from the cascade of combinations.
#[derive(Clone, Copy, Debug, PartialEq, Eq)]
pub struct RecoveredAmbiguities {
    pub n1: Option<i64>,
    pub n2: Option<i64>,
}

/// Recovers the L1 and L2 ambiguities from the narrow-lane (`N1`) and
/// wide-lane (`N1 - N2`) ones: both are known only when both lanes are.
pub fn recover_n1_n2(n_nl: Option<i64>, n_wl: Option<i64>) -> (r: RecoveredAmbiguities)
    requires
        n_nl is Some && n_wl is Some ==> i64::MIN <= n_nl->0 - n_wl->0 <= i64::MAX,
    ensures
        (n_nl is Some && n_wl is Some) ==> r == (RecoveredAmbiguities {
            n1: n_nl,
            n2: Some((n_nl->0 - n_wl->0) as i64),
        }),
        !(n_nl is Some && n_wl is Some) ==> r == (RecoveredAmbiguities { n1: None, n2: None }),
{
    match (n_nl, n_wl) {
        (Some(nl), Some(wl)) => RecoveredAmbiguities { n1: Some(nl), n2: Some(nl - wl) },
        _ => RecoveredAmbiguities { n1: None, n2: None },
    }
}

/// How the wide-lane ambiguity of a satellite is resolved.
#[derive(Clone, Copy, Debug, PartialEq, Eq, Structural)]
pub enum WideLaneMethod {
    /// From the fixed extra-wide-lane ambiguity (L5 available).
    FromExtraWideLane(i64),
    /// Melbourne-Wubbena fallback when the extra wide lane is unknown.
    MelbourneWubbena,
}

/// The extra-wide-lane ambiguity, when fixed, drives the wide lane;
/// otherwise the geometry-free Melbourne-Wubbena combination is used.
pub fn wide_lane_method(n_ewl: Option<i64>) -> (m: WideLaneMethod)
    ensures
        m == (match n_ewl {
            Some(e) => WideLaneMethod::FromExtraWideLane(e),
            None => WideLaneMethod::MelbourneWubbena,
        }),
{
    match n_ewl {
        Some(e) => WideLaneMethod::FromExtraWideLane(e),
        None => WideLaneMethod::MelbourneWubbena,
    }
}

} // verus!
