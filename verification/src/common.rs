use vstd::prelude::*;

verus! {

/// The failures the fitter and the evaluator can report.
#[derive(Clone, Copy, Debug, PartialEq, Eq, Structural)]
pub enum SplineError {
    /// Fewer than 2 knots were supplied to the fitter.
    InputTooSmall,
    /// A coordinate is NaN or infinite.
    NonFiniteValue,
    /// The constraint matrix is non-invertible (degenerate knot configuration).
    SingularSystem,
    /// A query value lies outside the covered interval.
    OutOfRange,
    /// Evaluation was attempted against zero segments.
    EmptySpline,
}

/// One interpolation point.  `x` and `y` are IEEE-754 double-precision bit
/// patterns (`f64::to_bits`); the library orders and compares them through
/// [`key`], the standard total order on such bit patterns.
#[derive(Clone, Copy, Debug, PartialEq, Eq, Structural)]
pub struct Knot {
    pub x: u64,
    pub y: u64,
}

/// One cubic polynomial piece `S(t) = a·t³ + b·t² + c·t + d`, valid on the
/// closed interval `[knot0, knot1]`.  All six fields are IEEE-754
/// double-precision bit patterns.
#[derive(Clone, Copy, Debug, PartialEq, Eq, Structural)]
pub struct SplineSegment {
    pub a: u64,
    pub b: u64,
    pub c: u64,
    pub d: u64,
    pub knot0: u64,
    pub knot1: u64,
}

/// The total order on IEEE-754 double bit patterns: bit patterns with the
/// sign bit set (negative values) are reversed below the rest.  On finite
/// doubles this order agrees with the numeric order, except that it places
/// the negative zero strictly below the positive zero.
pub open spec fn key(u: u64) -> int {
    if u >= 0x8000_0000_0000_0000 {
        0xFFFF_FFFF_FFFF_FFFF - u
    } else {
        u + 0x8000_0000_0000_0000
    }
}

/// Maps a coordinate bit pattern to a `u64` whose unsigned order is the
/// total order [`key`].
pub fn order_key(u: u64) -> (r: u64)
    ensures
        r == key(u),
{
    if u >= 0x8000_0000_0000_0000 {
        0xFFFF_FFFF_FFFF_FFFF - u
    } else {
        u + 0x8000_0000_0000_0000
    }
}

/// Whether a bit pattern encodes a finite double: the exponent field is not
/// all ones (which would mean an infinity or a NaN).
pub open spec fn is_finite_bits(u: u64) -> bool {
    (u >> 52) & 0x7FF != 0x7FF
}

/// Runtime check for [`is_finite_bits`].
pub fn finite_bits(u: u64) -> (r: bool)
    ensures
        r == is_finite_bits(u),
{
    ((u >> 52) & 0x7FF) != 0x7FF
}

impl SplineSegment {
    /// Whether `x` lies in this segment's closed interval, in the total
    /// order on bit patterns.
    pub open spec fn spec_contains(self, x: u64) -> bool {
        key(self.knot0) <= key(x) && key(x) <= key(self.knot1)
    }

    /// The guard an evaluator re-checks before computing the polynomial:
    /// the query must lie inside this segment's own interval.
    pub fn contains(&self, x: u64) -> (r: bool)
        ensures
            r == self.spec_contains(x),
    {
        order_key(self.knot0) <= order_key(x) && order_key(x) <= order_key(self.knot1)
    }

    /// Whether all six coefficients and bounds are finite doubles.
    pub open spec fn spec_finite(self) -> bool {
        is_finite_bits(self.a) && is_finite_bits(self.b) && is_finite_bits(self.c)
            && is_finite_bits(self.d) && is_finite_bits(self.knot0) && is_finite_bits(self.knot1)
    }

    /// Runtime check for [`SplineSegment::spec_finite`].
    pub fn is_finite(&self) -> (r: bool)
        ensures
            r == self.spec_finite(),
    {
        finite_bits(self.a) && finite_bits(self.b) && finite_bits(self.c) && finite_bits(self.d)
            && finite_bits(self.knot0) && finite_bits(self.knot1)
    }
}

/// Well-formedness of a segment sequence: every segment spans a non-empty
/// interval, and consecutive segments share their boundary exactly, so the
/// sequence partitions `[first.knot0, last.knot1]` with no gaps and no
/// overlaps.  The evaluator's search requires this invariant; the fitter
/// establishes it by construction.
pub open spec fn spline_wf(s: Seq<SplineSegment>) -> bool {
    &&& forall|i: int| 0 <= i < s.len() ==> key(#[trigger] s[i].knot0) < key(s[i].knot1)
    &&& forall|i: int| 0 <= i < s.len() - 1 ==> #[trigger] s[i].knot1 == s[i + 1].knot0
}

/// Knots sorted strictly ascending by `x` in the total order on bit
/// patterns; strictness also means the `x` positions are pairwise distinct.
pub open spec fn knots_sorted(ks: Seq<Knot>) -> bool {
    forall|i: int, j: int| 0 <= i < j < ks.len() ==> key(#[trigger] ks[i].x) < key(#[trigger] ks[j].x)
}

} // verus!
