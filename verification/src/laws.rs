//! What holds of the relations between ranges, for every domain and every
//! range, stated over the points that the ranges hold.

use vstd::prelude::*;
use crate::integer::Integer;
use crate::interval::{Bound, Error, Inclusive, IntRange};

verus! {

/// The point `x` lies in the interval `piece`, if there is one.
pub open spec fn piece_has(piece: Option<(int, int)>, x: int) -> bool {
    match piece {
        Some((lo, hi)) => lo <= x <= hi,
        None => false,
    }
}

/// An inclusive interval is determined by the integers its ends stand for.
pub proof fn lemma_inclusive_by_ends<T: Integer>(a: Inclusive<T>, b: Inclusive<T>)
    requires
        a@ == b@,
    ensures
        a == b,
{
    T::lemma_injective(a.start, b.start);
    T::lemma_injective(a.end, b.end);
}

/// However the ends of a range are written, if its points are exactly those
/// from `a` to `b`, with `a <= b`, its inclusive form is `(a, b)`.
pub proof fn lemma_inclusive_by_points<T: Integer>(r: IntRange<T>, a: int, b: int)
    requires
        a <= b,
        forall|x: int| r.has_point(x) <==> a <= x <= b,
    ensures
        r.inclusive() == Ok::<(int, int), Error>((a, b)),
{
    assert(r.has_point(a));
    assert(r.has_point(b));
    assert(r.has_point(r.lower()));
    assert(r.has_point(r.upper()));
}

/// Two ranges that hold the same points, at least one, have the same
/// inclusive form.
pub proof fn lemma_inclusive_of_same_points<T: Integer>(r: IntRange<T>, s: IntRange<T>)
    requires
        !r.empty(),
        r.points() == s.points(),
    ensures
        r.inclusive() == s.inclusive(),
        r.inclusive() is Ok,
{
    assert(r.points().contains(r.lower()));
    assert(r.points().contains(r.upper()));
    assert(s.has_point(r.lower()));
    assert(s.has_point(r.upper()));
    assert(s.points().contains(s.lower()));
    assert(s.points().contains(s.upper()));
    assert(r.has_point(s.lower()));
    assert(r.has_point(s.upper()));
}

/// A range that starts just above `v` and has no upper end is empty exactly
/// when `v` is the greatest value of the domain: above the greatest value
/// there is nothing, above any other there is.
pub proof fn lemma_open_start_empty_at_max<T: Integer>(v: T)
    ensures
        (IntRange { start: Bound::Excluded(v), end: Bound::<T>::Unbounded }).empty() <==> v.to_int()
            == T::max_int(),
{
    v.lemma_in_domain();
}

/// A range that is not empty equals itself.
pub proof fn lemma_equal_reflexive<T: Integer>(r: IntRange<T>)
    requires
        !r.empty(),
    ensures
        r.same_points(r),
{
}

/// Two ranges are equal exactly when each contains the other.
pub proof fn lemma_equal_iff_mutual_containment<T: Integer>(a: IntRange<T>, b: IntRange<T>)
    ensures
        a.same_points(b) <==> (a.containment(b) == Ok::<bool, Error>(true)
            && b.containment(a) == Ok::<bool, Error>(true)),
{
}

/// Equal ranges hold the same points, and ranges that hold the same points, at
/// least one, are equal.
pub proof fn lemma_equal_iff_same_points<T: Integer>(a: IntRange<T>, b: IntRange<T>)
    requires
        !a.empty(),
        !b.empty(),
    ensures
        a.same_points(b) <==> a.points() == b.points(),
{
    if a.same_points(b) {
        assert(a.points() =~= b.points());
    }
    if a.points() == b.points() {
        lemma_inclusive_of_same_points(a, b);
    }
}

/// Of two ranges that are not empty, one covers the other exactly when it
/// holds every point of the other.
pub proof fn lemma_covers_iff_subset<T: Integer>(a: IntRange<T>, b: IntRange<T>)
    requires
        !a.empty(),
        !b.empty(),
    ensures
        a.covers(b) <==> b.points().subset_of(a.points()),
{
    if b.points().subset_of(a.points()) {
        assert(b.points().contains(b.lower()));
        assert(b.points().contains(b.upper()));
        assert(a.has_point(b.lower()));
        assert(a.has_point(b.upper()));
    }
    if a.covers(b) {
        assert forall|x: int| b.points().contains(x) implies a.points().contains(x) by {
            assert(b.has_point(x));
            assert(a.has_point(x));
        }
    }
}

/// Two ranges that are not empty overlap exactly when they share a point.
pub proof fn lemma_overlaps_iff_shared_point<T: Integer>(a: IntRange<T>, b: IntRange<T>)
    requires
        !a.empty(),
        !b.empty(),
    ensures
        a.overlaps(b) <==> exists|x: int| a.has_point(x) && b.has_point(x),
{
    if a.overlaps(b) {
        let x = if a.lower() <= b.lower() {
            b.lower()
        } else {
            a.lower()
        };
        assert(a.has_point(x) && b.has_point(x));
    }
}

/// Taking `b` out of `a` splits `a` into three parts that share no point: what
/// is left below `b`, `b` itself, and what is left above `b`.  Together they
/// hold exactly the points of `a`.
pub proof fn lemma_difference_partitions<T: Integer>(a: IntRange<T>, b: IntRange<T>, x: int)
    requires
        a.can_subtract(b),
    ensures
        a.difference(b) is Ok,
        a.has_point(x) <==> (piece_has(a.left_of(b), x) || b.has_point(x) || piece_has(
            a.right_of(b),
            x,
        )),
        !(piece_has(a.left_of(b), x) && b.has_point(x)),
        !(b.has_point(x) && piece_has(a.right_of(b), x)),
        !(piece_has(a.left_of(b), x) && piece_has(a.right_of(b), x)),
{
}

/// A difference is refused as empty exactly when one of the two ranges is
/// empty, and as not contained exactly when neither is empty and some point of
/// `b` is no point of `a`.  In every other case it is given.
pub proof fn lemma_difference_refused_unless_inside<T: Integer>(a: IntRange<T>, b: IntRange<T>)
    ensures
        a.difference(b) == Err::<(Option<(int, int)>, Option<(int, int)>), Error>(
            Error::EmptyRange,
        ) <==> (a.empty() || b.empty()),
        a.difference(b) == Err::<(Option<(int, int)>, Option<(int, int)>), Error>(
            Error::SelfDoNotContainOtherRange,
        ) <==> (!a.empty() && !b.empty() && !b.points().subset_of(a.points())),
        a.difference(b) is Ok <==> a.can_subtract(b),
{
    if !a.empty() && !b.empty() {
        lemma_covers_iff_subset(a, b);
    }
}

/// Each part that a difference leaves holds at least one point.
pub proof fn lemma_difference_pieces_not_empty<T: Integer>(a: IntRange<T>, b: IntRange<T>)
    requires
        a.can_subtract(b),
    ensures
        a.left_of(b) matches Some((lo, hi)) ==> lo <= hi,
        a.right_of(b) matches Some((lo, hi)) ==> lo <= hi,
{
}

} // verus!
