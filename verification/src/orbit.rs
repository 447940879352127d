use vstd::prelude::*;

verus! {

/// Range `[start, end)` of the `degree + 1` precise-orbit samples used for
/// interpolation around the sample closest to the target time: centred on
/// it where possible, shifted back to fit when it runs past the last sample,
/// and clipped to the available samples.
pub open spec fn spec_orbit_window(closest: int, degree: int, len: int) -> (int, int) {
    let n = degree + 1;
    let start = if closest - n / 2 > 0 {
        closest - n / 2
    } else {
        0
    };
    if start + n > len {
        (if len - n > 0 {
            len - n
        } else {
            0
        }, len)
    } else {
        (start, start + n)
    }
}

/// Chooses the samples to interpolate an orbit from.
pub fn orbit_window(closest: usize, degree: usize, len: usize) -> (r: (usize, usize))
    requires
        degree < usize::MAX,
        closest < len,
    ensures
        r.0 as int == spec_orbit_window(closest as int, degree as int, len as int).0,
        r.1 as int == spec_orbit_window(closest as int, degree as int, len as int).1,
        r.0 <= r.1 <= len,
        r.0 <= closest < r.1,
        r.1 - r.0 == (if degree + 1 <= len {
            degree + 1
        } else {
            len as int
        }),
{
    let n_points = degree + 1;
    let start = closest.saturating_sub(n_points / 2);
    if start > len - n_points.min(len) || n_points > len {
        let end = len;
        (end.saturating_sub(n_points), end)
    } else {
        (start, start + n_points)
    }
}

} // verus!
