use vstd::prelude::*;
use vstd::pervasive::VecAdditionalExecFns;
use vstd::seq_lib::group_to_multiset_ensures;
use crate::common::{finite_bits, is_finite_bits, key, knots_sorted, order_key, spline_wf, Knot,
    SplineError, SplineSegment};

verus! {

/// Whether both coordinates of a knot are finite doubles.
pub open spec fn knot_finite(k: Knot) -> bool {
    is_finite_bits(k.x) && is_finite_bits(k.y)
}

/// Whether every knot in the sequence has finite coordinates.
pub open spec fn knots_all_finite(ks: Seq<Knot>) -> bool {
    forall|i: int| 0 <= i < ks.len() ==> knot_finite(#[trigger] ks[i])
}

/// Whether the knots' `x` positions are pairwise distinct in the total
/// order on bit patterns.
pub open spec fn distinct_x(ks: Seq<Knot>) -> bool {
    forall|p: int, q: int|
        0 <= p < q < ks.len() ==> key(#[trigger] ks[p].x) != key(#[trigger] ks[q].x)
}

/// Swapping two adjacent elements keeps the multiset of elements.
proof fn lemma_swap_multiset(prev: Seq<Knot>, cur: Seq<Knot>, j: int)
    requires
        1 <= j < prev.len(),
        cur == prev.update(j - 1, prev[j]).update(j, prev[j - 1]),
    ensures
        cur.to_multiset() == prev.to_multiset(),
{
    broadcast use group_to_multiset_ensures;

    let s1 = prev.update(j - 1, prev[j]);
    assert(prev.contains(prev[j - 1]));
    assert(s1[j] == prev[j]);
    assert(s1.contains(s1[j - 1]));
    assert(cur.to_multiset() =~= prev.to_multiset());
}

/// Swapping two adjacent elements keeps the `x` positions pairwise
/// distinct.
proof fn lemma_swap_distinct(prev: Seq<Knot>, cur: Seq<Knot>, j: int)
    requires
        1 <= j < prev.len(),
        cur == prev.update(j - 1, prev[j]).update(j, prev[j - 1]),
        distinct_x(prev),
    ensures
        distinct_x(cur),
{
    assert forall|p: int, q: int|
        0 <= p < q < cur.len() implies key(#[trigger] cur[p].x) != key(
        #[trigger] cur[q].x,
    ) by {
        let pp: int = if p == j - 1 {
            j
        } else if p == j {
            j - 1
        } else {
            p
        };
        let qq: int = if q == j - 1 {
            j
        } else if q == j {
            j - 1
        } else {
            q
        };
        assert(cur[p] == prev[pp]);
        assert(cur[q] == prev[qq]);
        if pp < qq {
            assert(key(prev[pp].x) != key(prev[qq].x));
        } else {
            assert(key(prev[qq].x) != key(prev[pp].x));
        }
    }
}

/// Validates and orders the fitter's input: at least two knots, all
/// coordinates finite, pairwise distinct `x` positions.  Returns the knots
/// sorted ascending by `x` — the exact sequence the linear system is built
/// from — or the first applicable failure.
///
/// Knots with coincident `x` make two value-constraint rows of the system
/// identical, so they are reported as the singular system they would
/// produce.
pub fn prepare_knots(knots: Vec<Knot>) -> (r: Result<Vec<Knot>, SplineError>)
    ensures
        match r {
            Ok(ks) => knots@.len() >= 2 && knots_all_finite(knots@) && distinct_x(knots@)
                && ks@.len() == knots@.len() && ks@.to_multiset() == knots@.to_multiset()
                && knots_sorted(ks@) && knots_all_finite(ks@),
            Err(SplineError::InputTooSmall) => knots@.len() < 2,
            Err(SplineError::NonFiniteValue) => knots@.len() >= 2 && !knots_all_finite(knots@),
            Err(SplineError::SingularSystem) => knots@.len() >= 2 && knots_all_finite(knots@)
                && !distinct_x(knots@),
            Err(_) => false,
        },
{
    let n: usize = knots.len();
    if n < 2 {
        return Err(SplineError::InputTooSmall);
    }
    let mut i: usize = 0;
    while i < n
        invariant
            n == knots@.len(),
            2 <= n,
            i <= n,
            forall|j: int| 0 <= j < i ==> knot_finite(#[trigger] knots@[j]),
        decreases n - i,
    {
        if !finite_bits(knots[i].x) || !finite_bits(knots[i].y) {
            return Err(SplineError::NonFiniteValue);
        }
        i += 1;
    }
    let mut i: usize = 1;
    while i < n
        invariant
            n == knots@.len(),
            1 <= i <= n,
            knots_all_finite(knots@),
            forall|p: int, q: int|
                0 <= p < q < i ==> key(#[trigger] knots@[p].x) != key(#[trigger] knots@[q].x),
        decreases n - i,
    {
        let mut j: usize = 0;
        while j < i
            invariant
                n == knots@.len(),
                2 <= n,
                1 <= i,
                j <= i < n,
                knots_all_finite(knots@),
                forall|p: int, q: int|
                    0 <= p < q < i ==> key(#[trigger] knots@[p].x) != key(#[trigger] knots@[q].x),
                forall|p: int| 0 <= p < j ==> key(#[trigger] knots@[p].x) != key(knots@[i as int].x),
            decreases i - j,
        {
            if order_key(knots[j].x) == order_key(knots[i].x) {
                return Err(SplineError::SingularSystem);
            }
            j += 1;
        }
        i += 1;
    }
    let mut ks: Vec<Knot> = knots;
    let mut i: usize = 1;
    while i < n
        invariant
            n == ks@.len(),
            n == knots@.len(),
            2 <= n,
            1 <= i <= n,
            knots_all_finite(knots@),
            distinct_x(knots@),
            ks@.to_multiset() == knots@.to_multiset(),
            knots_all_finite(ks@),
            distinct_x(ks@),
            forall|p: int, q: int|
                0 <= p < q < i ==> key(#[trigger] ks@[p].x) <= key(#[trigger] ks@[q].x),
        decreases n - i,
    {
        let mut j: usize = i;
        while j > 0 && order_key(ks[j - 1].x) > order_key(ks[j].x)
            invariant
                n == ks@.len(),
                j <= i < n,
                ks@.to_multiset() == knots@.to_multiset(),
                knots_all_finite(ks@),
                distinct_x(ks@),
                forall|p: int, q: int|
                    0 <= p < q <= i && q != j ==> key(#[trigger] ks@[p].x) <= key(
                        #[trigger] ks@[q].x,
                    ),
            decreases j,
        {
            let ghost prev = ks@;
            let a: Knot = ks[j - 1];
            let b: Knot = ks[j];
            ks.set(j - 1, b);
            ks.set(j, a);
            proof {
                lemma_swap_multiset(prev, ks@, j as int);
                lemma_swap_distinct(prev, ks@, j as int);
            }
            j -= 1;
        }
        i += 1;
    }
    Ok(ks)
}

/// One term of one constraint row of the linear system: the unknown in
/// column `col` of row `row` has the coefficient
/// `scale · x^power`, where `x` is the `x` position of knot `knot`.
#[derive(Clone, Copy, Debug, PartialEq, Eq, Structural)]
pub struct SystemTerm {
    pub row: usize,
    pub col: usize,
    pub scale: i8,
    pub power: u8,
    pub knot: usize,
}

/// One non-zero entry of the system's right-hand side: row `row` equals
/// the `y` value of knot `knot`.
#[derive(Clone, Copy, Debug, PartialEq, Eq, Structural)]
pub struct RhsTerm {
    pub row: usize,
    pub knot: usize,
}

/// The two value-match rows of segment `i`: the cubic through
/// `(x_i, y_i)` and `(x_{i+1}, y_{i+1})`, written into the segment's own
/// four columns.
pub open spec fn spec_value_terms(i: int) -> Seq<SystemTerm> {
    seq![
        SystemTerm { row: (4 * i) as usize, col: (4 * i) as usize, scale: 1, power: 3, knot: i as usize },
        SystemTerm { row: (4 * i) as usize, col: (4 * i + 1) as usize, scale: 1, power: 2, knot: i as usize },
        SystemTerm { row: (4 * i) as usize, col: (4 * i + 2) as usize, scale: 1, power: 1, knot: i as usize },
        SystemTerm { row: (4 * i) as usize, col: (4 * i + 3) as usize, scale: 1, power: 0, knot: i as usize },
        SystemTerm { row: (4 * i + 1) as usize, col: (4 * i) as usize, scale: 1, power: 3, knot: (i + 1) as usize },
        SystemTerm { row: (4 * i + 1) as usize, col: (4 * i + 1) as usize, scale: 1, power: 2, knot: (i + 1) as usize },
        SystemTerm { row: (4 * i + 1) as usize, col: (4 * i + 2) as usize, scale: 1, power: 1, knot: (i + 1) as usize },
        SystemTerm { row: (4 * i + 1) as usize, col: (4 * i + 3) as usize, scale: 1, power: 0, knot: (i + 1) as usize },
    ]
}

/// The two smoothness rows of segment `i` at its upper knot `x_{i+1}`:
/// first and second derivatives match those of segment `i + 1`, whose
/// columns enter with opposite sign.
pub open spec fn spec_continuity_terms(i: int) -> Seq<SystemTerm> {
    seq![
        SystemTerm { row: (4 * i + 2) as usize, col: (4 * i) as usize, scale: 3, power: 2, knot: (i + 1) as usize },
        SystemTerm { row: (4 * i + 2) as usize, col: (4 * i + 1) as usize, scale: 2, power: 1, knot: (i + 1) as usize },
        SystemTerm { row: (4 * i + 2) as usize, col: (4 * i + 2) as usize, scale: 1, power: 0, knot: (i + 1) as usize },
        SystemTerm { row: (4 * i + 2) as usize, col: (4 * i + 4) as usize, scale: -3i8, power: 2, knot: (i + 1) as usize },
        SystemTerm { row: (4 * i + 2) as usize, col: (4 * i + 5) as usize, scale: -2i8, power: 1, knot: (i + 1) as usize },
        SystemTerm { row: (4 * i + 2) as usize, col: (4 * i + 6) as usize, scale: -1i8, power: 0, knot: (i + 1) as usize },
        SystemTerm { row: (4 * i + 3) as usize, col: (4 * i) as usize, scale: 6, power: 1, knot: (i + 1) as usize },
        SystemTerm { row: (4 * i + 3) as usize, col: (4 * i + 1) as usize, scale: 2, power: 0, knot: (i + 1) as usize },
        SystemTerm { row: (4 * i + 3) as usize, col: (4 * i + 4) as usize, scale: -6i8, power: 1, knot: (i + 1) as usize },
        SystemTerm { row: (4 * i + 3) as usize, col: (4 * i + 5) as usize, scale: -2i8, power: 0, knot: (i + 1) as usize },
    ]
}

/// All rows contributed by segments `0 .. k`: value rows for each, and
/// smoothness rows for each segment but the last.
pub open spec fn spec_segment_terms_upto(k: int, nseg: int) -> Seq<SystemTerm>
    decreases k,
{
    if k <= 0 {
        Seq::empty()
    } else if k - 1 < nseg - 1 {
        spec_segment_terms_upto(k - 1, nseg) + spec_value_terms(k - 1) + spec_continuity_terms(
            k - 1,
        )
    } else {
        spec_segment_terms_upto(k - 1, nseg) + spec_value_terms(k - 1)
    }
}

/// The two natural-boundary rows, injected in place of the last segment's
/// unused smoothness rows: zero second derivative at the first knot,
/// written into the first segment's `(a, b)` columns, and at the last
/// knot, written into the last segment's `(a, b)` columns.
pub open spec fn spec_boundary_terms(nseg: int) -> Seq<SystemTerm> {
    seq![
        SystemTerm { row: (4 * nseg - 2) as usize, col: 0, scale: 6, power: 1, knot: 0 },
        SystemTerm { row: (4 * nseg - 2) as usize, col: 1, scale: 2, power: 0, knot: 0 },
        SystemTerm { row: (4 * nseg - 1) as usize, col: (4 * nseg - 4) as usize, scale: 6, power: 1, knot: nseg as usize },
        SystemTerm { row: (4 * nseg - 1) as usize, col: (4 * nseg - 3) as usize, scale: 2, power: 0, knot: nseg as usize },
    ]
}

/// The complete `4(n-1) × 4(n-1)` constraint system for `n` knots, as the
/// list of its non-zero coefficient terms.
pub open spec fn spec_system_terms(nseg: int) -> Seq<SystemTerm> {
    spec_segment_terms_upto(nseg, nseg) + spec_boundary_terms(nseg)
}

/// The right-hand side of the system: the value-match rows of segment `i`
/// equal `y_i` and `y_{i+1}`; every other row equals zero.
pub open spec fn spec_system_rhs(nseg: int) -> Seq<RhsTerm>
    decreases nseg,
{
    if nseg <= 0 {
        Seq::empty()
    } else {
        spec_system_rhs(nseg - 1) + seq![
            RhsTerm { row: (4 * (nseg - 1)) as usize, knot: (nseg - 1) as usize },
            RhsTerm { row: (4 * (nseg - 1) + 1) as usize, knot: nseg as usize },
        ]
    }
}

/// Whether a term addresses a cell of the `4·nseg × 4·nseg` matrix and a
/// knot of the input.
pub open spec fn term_in_bounds(t: SystemTerm, nseg: int) -> bool {
    t.row < 4 * nseg && t.col < 4 * nseg && t.knot <= nseg
}

proof fn lemma_segment_terms_upto_bounds(k: int, nseg: int)
    requires
        0 <= k <= nseg,
        1 <= nseg,
        4 * nseg <= usize::MAX,
    ensures
        forall|t: int|
            0 <= t < spec_segment_terms_upto(k, nseg).len() ==> term_in_bounds(
                #[trigger] spec_segment_terms_upto(k, nseg)[t],
                nseg,
            ),
    decreases k,
{
    if k > 0 {
        lemma_segment_terms_upto_bounds(k - 1, nseg);
        let prefix = spec_segment_terms_upto(k - 1, nseg);
        let s = spec_segment_terms_upto(k, nseg);
        assert forall|t: int| 0 <= t < s.len() implies term_in_bounds(#[trigger] s[t], nseg) by {
            if t >= prefix.len() {
                assert(term_in_bounds(s[t], nseg));
            }
        }
    }
}

proof fn lemma_rhs_bounds(k: int)
    requires
        0 <= k,
        4 * k <= usize::MAX,
    ensures
        forall|t: int|
            0 <= t < spec_system_rhs(k).len() ==> (#[trigger] spec_system_rhs(k)[t]).row < 4 * k
                && spec_system_rhs(k)[t].knot <= k,
    decreases k,
{
    if k > 0 {
        lemma_rhs_bounds(k - 1);
        let prefix = spec_system_rhs(k - 1);
        let s = spec_system_rhs(k);
        assert forall|t: int|
            0 <= t < s.len() implies (#[trigger] s[t]).row < 4 * k && s[t].knot <= k by {
            if t >= prefix.len() {
                assert(s[t].row < 4 * k && s[t].knot <= k);
            } else {
                assert(s[t] == prefix[t]);
            }
        }
    }
}

/// Emits the constraint rows of the fitter's linear system for `num_knots`
/// knots, as coefficient terms and right-hand-side entries.  The caller
/// raises each term's knot coordinate to the stated power, scales it, and
/// places it; every cell the terms do not name is zero.  Every term
/// addresses a cell of the `4(n-1) × 4(n-1)` matrix and one of the knots.
pub fn build_system_layout(num_knots: usize) -> (r: (Vec<SystemTerm>, Vec<RhsTerm>))
    requires
        2 <= num_knots,
        4 * (num_knots - 1) <= usize::MAX,
    ensures
        r.0@ == spec_system_terms(num_knots - 1),
        r.1@ == spec_system_rhs(num_knots - 1),
        forall|t: int|
            0 <= t < r.0@.len() ==> term_in_bounds(#[trigger] r.0@[t], num_knots - 1),
        forall|t: int|
            0 <= t < r.1@.len() ==> (#[trigger] r.1@[t]).row < 4 * (num_knots - 1)
                && r.1@[t].knot < num_knots,
{
    proof {
        lemma_segment_terms_upto_bounds(num_knots - 1, num_knots - 1);
        lemma_rhs_bounds(num_knots - 1);
    }
    let nseg: usize = num_knots - 1;
    let mut terms: Vec<SystemTerm> = Vec::new();
    let mut rhs: Vec<RhsTerm> = Vec::new();
    let mut i: usize = 0;
    while i < nseg
        invariant
            1 <= nseg,
            4 * nseg <= usize::MAX,
            i <= nseg,
            terms@ == spec_segment_terms_upto(i as int, nseg as int),
            rhs@ == spec_system_rhs(i as int),
        decreases nseg - i,
    {
        let r0: usize = 4 * i;
        terms.push(SystemTerm { row: r0, col: r0, scale: 1, power: 3, knot: i });
        terms.push(SystemTerm { row: r0, col: r0 + 1, scale: 1, power: 2, knot: i });
        terms.push(SystemTerm { row: r0, col: r0 + 2, scale: 1, power: 1, knot: i });
        terms.push(SystemTerm { row: r0, col: r0 + 3, scale: 1, power: 0, knot: i });
        terms.push(SystemTerm { row: r0 + 1, col: r0, scale: 1, power: 3, knot: i + 1 });
        terms.push(SystemTerm { row: r0 + 1, col: r0 + 1, scale: 1, power: 2, knot: i + 1 });
        terms.push(SystemTerm { row: r0 + 1, col: r0 + 2, scale: 1, power: 1, knot: i + 1 });
        terms.push(SystemTerm { row: r0 + 1, col: r0 + 3, scale: 1, power: 0, knot: i + 1 });
        rhs.push(RhsTerm { row: r0, knot: i });
        rhs.push(RhsTerm { row: r0 + 1, knot: i + 1 });
        if i < nseg - 1 {
            terms.push(SystemTerm { row: r0 + 2, col: r0, scale: 3, power: 2, knot: i + 1 });
            terms.push(SystemTerm { row: r0 + 2, col: r0 + 1, scale: 2, power: 1, knot: i + 1 });
            terms.push(SystemTerm { row: r0 + 2, col: r0 + 2, scale: 1, power: 0, knot: i + 1 });
            terms.push(SystemTerm { row: r0 + 2, col: r0 + 4, scale: -3i8, power: 2, knot: i + 1 });
            terms.push(SystemTerm { row: r0 + 2, col: r0 + 5, scale: -2i8, power: 1, knot: i + 1 });
            terms.push(SystemTerm { row: r0 + 2, col: r0 + 6, scale: -1i8, power: 0, knot: i + 1 });
            terms.push(SystemTerm { row: r0 + 3, col: r0, scale: 6, power: 1, knot: i + 1 });
            terms.push(SystemTerm { row: r0 + 3, col: r0 + 1, scale: 2, power: 0, knot: i + 1 });
            terms.push(SystemTerm { row: r0 + 3, col: r0 + 4, scale: -6i8, power: 1, knot: i + 1 });
            terms.push(SystemTerm { row: r0 + 3, col: r0 + 5, scale: -2i8, power: 0, knot: i + 1 });
            proof {
                assert(terms@ =~= spec_segment_terms_upto(i as int, nseg as int)
                    + spec_value_terms(i as int) + spec_continuity_terms(i as int));
            }
        } else {
            proof {
                assert(terms@ =~= spec_segment_terms_upto(i as int, nseg as int)
                    + spec_value_terms(i as int));
            }
        }
        proof {
            assert(rhs@ =~= spec_system_rhs(i as int) + seq![
                RhsTerm { row: (4 * i) as usize, knot: i },
                RhsTerm { row: (4 * i + 1) as usize, knot: (i + 1) as usize },
            ]);
        }
        i += 1;
    }
    let nrows: usize = 4 * nseg;
    terms.push(SystemTerm { row: nrows - 2, col: 0, scale: 6, power: 1, knot: 0 });
    terms.push(SystemTerm { row: nrows - 2, col: 1, scale: 2, power: 0, knot: 0 });
    terms.push(SystemTerm { row: nrows - 1, col: nrows - 4, scale: 6, power: 1, knot: nseg });
    terms.push(SystemTerm { row: nrows - 1, col: nrows - 3, scale: 2, power: 0, knot: nseg });
    proof {
        assert(terms@ =~= spec_segment_terms_upto(nseg as int, nseg as int) + spec_boundary_terms(
            nseg as int,
        ));
    }
    (terms, rhs)
}

/// Unpacks the solved coefficient vector — four values per segment, in
/// segment order — into one [`SplineSegment`] per consecutive knot pair.
///
/// Fitting `n` knots yields exactly `n − 1` segments; each spans
/// `[knots[i].x, knots[i+1].x]`, so adjacent segments share their boundary
/// exactly and the result is well-formed by construction.
pub fn assemble_spline(knots: &Vec<Knot>, solution: &Vec<u64>) -> (r: Vec<SplineSegment>)
    requires
        knots@.len() >= 2,
        knots_sorted(knots@),
        solution@.len() == 4 * (knots@.len() - 1),
    ensures
        r@.len() == knots@.len() - 1,
        forall|i: int| 0 <= i < r@.len() ==> r@[i] == (SplineSegment {
            a: solution@[4 * i],
            b: solution@[4 * i + 1],
            c: solution@[4 * i + 2],
            d: solution@[4 * i + 3],
            knot0: knots@[i].x,
            knot1: knots@[i + 1].x,
        }),
        spline_wf(r@),
{
    let n: usize = knots.len();
    let m: usize = solution.len();
    let mut spline: Vec<SplineSegment> = Vec::new();
    let mut i: usize = 0;
    while i < n - 1
        invariant
            n == knots@.len(),
            2 <= n,
            knots_sorted(knots@),
            m == solution@.len(),
            solution@.len() == 4 * (n - 1),
            i <= n - 1,
            spline@.len() == i,
            forall|k: int| 0 <= k < i ==> spline@[k] == (SplineSegment {
                a: solution@[4 * k],
                b: solution@[4 * k + 1],
                c: solution@[4 * k + 2],
                d: solution@[4 * k + 3],
                knot0: knots@[k].x,
                knot1: knots@[k + 1].x,
            }),
        decreases n - 1 - i,
    {
        let seg = SplineSegment {
            a: solution[4 * i],
            b: solution[4 * i + 1],
            c: solution[4 * i + 2],
            d: solution[4 * i + 3],
            knot0: knots[i].x,
            knot1: knots[i + 1].x,
        };
        spline.push(seg);
        i += 1;
    }
    spline
}

} // verus!
