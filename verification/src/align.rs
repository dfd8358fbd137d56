//! Alignment engine: converts a variable-length per-entity history plus the
//! globally shared timestamp axis into a fixed-length, axis-aligned point
//! series for charting. A history shorter than the axis is right-justified
//! by left-padding with zero-valued points, so charts never misplace samples
//! on the time axis when an entity joined late.

use vstd::prelude::*;

verus! {

/// The aligned point series for axis `axis` and history `hist`
/// (`hist.len() <= axis.len()`): one `(x, y)` point per axis entry; the
/// leading `axis.len() - hist.len()` points carry `y == 0`, the rest carry
/// the history values in their original order.
pub open spec fn aligned(axis: Seq<u64>, hist: Seq<u64>) -> Seq<(u64, u64)> {
    Seq::new(
        axis.len(),
        |i: int|
            if i < axis.len() - hist.len() {
                (axis[i], 0u64)
            } else {
                (axis[i], hist[i - (axis.len() - hist.len())])
            },
    )
}

/// Right-aligns `hist` against `axis`, left-padding with zero points.
pub fn align_series(axis: &Vec<u64>, hist: &Vec<u64>) -> (points: Vec<(u64, u64)>)
    requires
        hist@.len() <= axis@.len(),
    ensures
        points@ == aligned(axis@, hist@),
        points@.len() == axis@.len(),
        forall|i: int|
            0 <= i < axis@.len() - hist@.len() ==> points@[i] == (axis@[i], 0u64),
        forall|i: int|
            axis@.len() - hist@.len() <= i < axis@.len() ==> points@[i] == (
            axis@[i],
            hist@[i - (axis@.len() - hist@.len())],
            ),
{
    let n = axis.len();
    let l = hist.len();
    let pad = n - l;
    let mut points: Vec<(u64, u64)> = Vec::new();
    let mut i: usize = 0;
    while i < pad
        invariant
            i <= pad,
            pad == axis@.len() - hist@.len(),
            points@.len() == i,
            forall|j: int| 0 <= j < i ==> points@[j] == (axis@[j], 0u64),
        decreases pad - i,
    {
        points.push((axis[i], 0u64));
        i += 1;
    }
    while i < n
        invariant
            pad <= i <= n,
            n == axis@.len(),
            pad == axis@.len() - hist@.len(),
            points@.len() == i,
            forall|j: int| 0 <= j < pad ==> points@[j] == (axis@[j], 0u64),
            forall|j: int| pad <= j < i ==> points@[j] == (axis@[j], hist@[j - pad]),
        decreases n - i,
    {
        points.push((axis[i], hist[i - pad]));
        i += 1;
    }
    assert(points@ =~= aligned(axis@, hist@));
    points
}

} // verus!
