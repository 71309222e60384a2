use vstd::prelude::*;
use crate::common::{key, order_key, spline_wf, SplineError, SplineSegment};

verus! {

/// Whether `x` lies inside the interval the whole spline covers,
/// `[first.knot0, last.knot1]`, in the total order on bit patterns.
pub open spec fn in_range(s: Seq<SplineSegment>, x: u64) -> bool
    recommends
        s.len() > 0,
{
    key(s[0].knot0) <= key(x) && key(x) <= key(s[s.len() - 1].knot1)
}

/// Locates the segment whose closed interval contains the query `x` by
/// binary search over the ordered, gap-free segment sequence.
///
/// At a shared boundary either adjacent segment is an acceptable answer,
/// so the contract promises containment, not a particular index.
pub fn find_spline_segment(spline: &Vec<SplineSegment>, x: u64) -> (r: Result<
    usize,
    SplineError,
>)
    requires
        spline_wf(spline@),
    ensures
        match r {
            Ok(i) => spline@.len() > 0 && in_range(spline@, x) && i < spline@.len()
                && spline@[i as int].spec_contains(x),
            Err(SplineError::EmptySpline) => spline@.len() == 0,
            Err(SplineError::OutOfRange) => spline@.len() > 0 && !in_range(spline@, x),
            Err(_) => false,
        },
{
    let n: usize = spline.len();
    if n == 0 {
        return Err(SplineError::EmptySpline);
    }
    let kx: u64 = order_key(x);
    if kx < order_key(spline[0].knot0) || kx > order_key(spline[n - 1].knot1) {
        return Err(SplineError::OutOfRange);
    }
    let mut lo: usize = 0;
    let mut hi: usize = n - 1;
    while lo < hi
        invariant
            n == spline@.len(),
            0 < n,
            lo <= hi < n,
            spline_wf(spline@),
            kx == key(x),
            key(spline@[lo as int].knot0) <= key(x),
            key(x) <= key(spline@[hi as int].knot1),
            in_range(spline@, x),
        decreases hi - lo,
    {
        let mid: usize = lo + (hi - lo) / 2;
        if order_key(spline[mid].knot1) < kx {
            lo = mid + 1;
        } else if order_key(spline[mid].knot0) > kx {
            hi = mid - 1;
        } else {
            return Ok(mid);
        }
    }
    Ok(lo)
}

/// Locates the owning segment of every query value in input order.
///
/// Queries are independent: the result holds one index per query, and each
/// indexed segment contains its query.  The first query outside the covered
/// interval aborts the batch, as does an empty spline.
pub fn locate_segments(spline: &Vec<SplineSegment>, values: &Vec<u64>) -> (r: Result<
    Vec<usize>,
    SplineError,
>)
    requires
        spline_wf(spline@),
    ensures
        match r {
            Ok(idx) => spline@.len() > 0 && idx@.len() == values@.len() && forall|k: int|
                0 <= k < values@.len() ==> #[trigger] idx@[k] < spline@.len()
                    && spline@[idx@[k] as int].spec_contains(values@[k])
                    && in_range(spline@, values@[k]),
            Err(SplineError::EmptySpline) => spline@.len() == 0,
            Err(SplineError::OutOfRange) => spline@.len() > 0 && exists|k: int|
                0 <= k < values@.len() && !in_range(spline@, #[trigger] values@[k])
                    && (forall|j: int| 0 <= j < k ==> in_range(spline@, #[trigger] values@[j])),
            Err(_) => false,
        },
{
    if spline.len() == 0 {
        return Err(SplineError::EmptySpline);
    }
    let mut idx: Vec<usize> = Vec::new();
    let mut k: usize = 0;
    while k < values.len()
        invariant
            spline_wf(spline@),
            spline@.len() > 0,
            k <= values@.len(),
            idx@.len() == k,
            forall|j: int| 0 <= j < k ==> #[trigger] idx@[j] < spline@.len()
                && spline@[idx@[j] as int].spec_contains(values@[j]),
            forall|j: int| 0 <= j < k ==> in_range(spline@, #[trigger] values@[j]),
        decreases values@.len() - k,
    {
        match find_spline_segment(spline, values[k]) {
            Ok(i) => {
                idx.push(i);
            },
            Err(e) => {
                return Err(e);
            },
        }
        k += 1;
    }
    Ok(idx)
}

/// At a shared knot boundary either adjacent segment is an acceptable
/// match for the search: the boundary value lies in the closed intervals
/// of both segments that meet there.
pub proof fn lemma_boundary_in_both_segments(s: Seq<SplineSegment>, i: int)
    requires
        spline_wf(s),
        0 <= i < s.len() - 1,
    ensures
        s[i].spec_contains(s[i].knot1),
        s[i + 1].spec_contains(s[i].knot1),
{
}

/// Defensive revalidation of a reloaded segment table: all coefficients and
/// bounds are finite, every interval is non-empty, and consecutive segments
/// share their boundary exactly.
pub fn validate_spline(spline: &Vec<SplineSegment>) -> (r: bool)
    ensures
        r == (spline_wf(spline@) && forall|i: int|
            0 <= i < spline@.len() ==> (#[trigger] spline@[i]).spec_finite()),
{
    let n: usize = spline.len();
    let mut i: usize = 0;
    while i < n
        invariant
            n == spline@.len(),
            i <= n,
            forall|j: int| 0 <= j < i ==> (#[trigger] spline@[j]).spec_finite(),
            forall|j: int| 0 <= j < i ==> key(#[trigger] spline@[j].knot0) < key(spline@[j].knot1),
            forall|j: int| 0 <= j < i && j + 1 < n ==> #[trigger] spline@[j].knot1 == spline@[j
                + 1].knot0,
        decreases n - i,
    {
        if !spline[i].is_finite() {
            return false;
        }
        if order_key(spline[i].knot0) >= order_key(spline[i].knot1) {
            return false;
        }
        if i + 1 < n && spline[i].knot1 != spline[i + 1].knot0 {
            return false;
        }
        i += 1;
    }
    true
}

} // verus!
