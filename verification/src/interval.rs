//! Ranges with inclusive, exclusive or unbounded ends, and the relations
//! between them.
//!
//! Every range is modelled by two mathematical integers, its effective
//! `lower()` and `upper()` end: the set of points `x` with
//! `lower() <= x <= upper()`.  A range is empty exactly when `lower()` exceeds
//! `upper()`.  All contracts are stated over that model.

use vstd::prelude::*;
use crate::integer::Integer;

verus! {

/// One end of a range.
#[derive(Clone, Copy, Debug, PartialEq, Eq)]
pub enum Bound<T> {
    /// The end is the value itself.
    Included(T),
    /// The end lies just inside the value.
    Excluded(T),
    /// The end is the end of the domain.
    Unbounded,
}

/// A range given by its two ends.  Nothing is assumed of them: the range may
/// well be empty.
#[derive(Clone, Copy, Debug, PartialEq, Eq)]
pub struct IntRange<T> {
    pub start: Bound<T>,
    pub end: Bound<T>,
}

/// The set of integers from `start` to `end`, both included.
#[derive(Clone, Copy, Debug, PartialEq, Eq)]
pub struct Inclusive<T> {
    pub start: T,
    pub end: T,
}

/// Why an operation on ranges was refused.
#[derive(Clone, Copy, Debug, PartialEq, Eq, PartialOrd, Ord)]
pub enum Error {
    /// An operand that must hold at least one point holds none.
    EmptyRange,
    /// The range to take away is not wholly inside the range it is taken from.
    SelfDoNotContainOtherRange,
}

impl<T: Integer> View for Inclusive<T> {
    type V = (int, int);

    /// The two ends as mathematical integers.
    open spec fn view(&self) -> (int, int) {
        (self.start.to_int(), self.end.to_int())
    }
}

/// The ends of an interval that may be absent.
pub open spec fn ends<T: Integer>(piece: Option<Inclusive<T>>) -> Option<(int, int)> {
    match piece {
        Some(iv) => Some(iv@),
        None => None,
    }
}

/// The ends of the interval in a result, the error kept as it is.
pub open spec fn ends_of<T: Integer>(r: Result<Inclusive<T>, Error>) -> Result<(int, int), Error> {
    match r {
        Ok(iv) => Ok(iv@),
        Err(e) => Err(e),
    }
}

/// The ends of the two remainders in a result, the error kept as it is.
pub open spec fn remainders<T: Integer>(
    r: Result<(Option<Inclusive<T>>, Option<Inclusive<T>>), Error>,
) -> Result<(Option<(int, int)>, Option<(int, int)>), Error> {
    match r {
        Ok((below, above)) => Ok((ends(below), ends(above))),
        Err(e) => Err(e),
    }
}

/// Whether `a` is no greater than `b`.
fn at_most<T: Integer>(a: T, b: T) -> (r: bool)
    ensures
        r == (a.to_int() <= b.to_int()),
{
    !b.less(a)
}

/// Whether `a` and `b` stand for the same integer.
fn same<T: Integer>(a: T, b: T) -> (r: bool)
    ensures
        r == (a.to_int() == b.to_int()),
{
    !a.less(b) && !b.less(a)
}

impl Error {
    /// What the error says, in words.
    pub open spec fn text(self) -> Seq<char> {
        match self {
            Error::EmptyRange => "empty range"@,
            Error::SelfDoNotContainOtherRange => "self do not contain the other range"@,
        }
    }

    /// The error in words.
    pub fn message(&self) -> (s: &'static str)
        ensures
            s@ == self.text(),
    {
        match self {
            Error::EmptyRange => "empty range",
            Error::SelfDoNotContainOtherRange => "self do not contain the other range",
        }
    }
}

impl<T: Integer> Inclusive<T> {
    /// The interval as a range with both ends included.
    pub fn to_range(&self) -> (r: IntRange<T>)
        ensures
            r.start == Bound::Included(self.start),
            r.end == Bound::Included(self.end),
            r.lower() == self@.0,
            r.upper() == self@.1,
    {
        IntRange { start: Bound::Included(self.start), end: Bound::Included(self.end) }
    }
}

impl<T: Integer> Bound<T> {
    /// Whether the value carried by this end, if any, lies in the domain.
    pub open spec fn in_domain(self) -> bool {
        match self {
            Bound::Included(v) | Bound::Excluded(v) => T::min_int() <= v.to_int() <= T::max_int(),
            Bound::Unbounded => true,
        }
    }

    /// The value carried by an end always lies in the domain.
    pub proof fn lemma_in_domain(self)
        ensures
            self.in_domain(),
            T::min_int() <= T::max_int(),
    {
        match self {
            Bound::Included(v) | Bound::Excluded(v) => {
                v.lemma_in_domain();
            },
            Bound::Unbounded => {
                let v: T = arbitrary();
                v.lemma_in_domain();
            },
        }
    }
}

impl<T: Integer> IntRange<T> {
    /// The least point the range could hold.
    pub open spec fn lower(self) -> int {
        match self.start {
            Bound::Included(v) => v.to_int(),
            Bound::Excluded(v) => v.to_int() + 1,
            Bound::Unbounded => T::min_int(),
        }
    }

    /// The greatest point the range could hold.
    pub open spec fn upper(self) -> int {
        match self.end {
            Bound::Included(v) => v.to_int(),
            Bound::Excluded(v) => v.to_int() - 1,
            Bound::Unbounded => T::max_int(),
        }
    }

    /// The range holds no point.
    pub open spec fn empty(self) -> bool {
        self.lower() > self.upper()
    }

    /// The point `x` lies in the range.
    pub open spec fn has_point(self, x: int) -> bool {
        self.lower() <= x <= self.upper()
    }

    /// The points of the range, as a set.
    pub open spec fn points(self) -> Set<int> {
        Set::new(|x: int| self.has_point(x))
    }

    /// The ends lie no further out than one step beyond the domain, and a
    /// range that is not empty lies wholly inside it.
    pub proof fn lemma_ends(self)
        ensures
            self.start.in_domain(),
            self.end.in_domain(),
            T::min_int() <= T::max_int(),
            T::min_int() <= self.lower() <= T::max_int() + 1,
            T::min_int() - 1 <= self.upper() <= T::max_int(),
    {
        self.start.lemma_in_domain();
        self.end.lemma_in_domain();
    }

    /// A range from its two ends.
    pub fn new(start: Bound<T>, end: Bound<T>) -> (r: Self)
        ensures
            r.start == start,
            r.end == end,
    {
        IntRange { start, end }
    }

    /// Whether the range holds no point at all.
    pub fn is_empty_range(&self) -> (b: bool)
        ensures
            b == self.empty(),
    {
        proof {
            self.lemma_ends();
        }
        match self.start {
            Bound::Included(s) => match self.end {
                Bound::Included(e) => e.less(s),
                Bound::Excluded(e) => at_most(e, s),
                Bound::Unbounded => false,
            },
            Bound::Excluded(s) => match self.end {
                Bound::Included(e) => at_most(e, s),
                Bound::Excluded(e) => !(s.less(e) && s.succ().less(e)),
                Bound::Unbounded => at_most(T::max_value(), s),
            },
            Bound::Unbounded => match self.end {
                Bound::Included(e) => e.less(T::min_value()),
                Bound::Excluded(e) => at_most(e, T::min_value()),
                Bound::Unbounded => false,
            },
        }
    }

    /// Whether `item` is a point of the range.
    pub fn contains(&self, item: T) -> (b: bool)
        ensures
            b == self.has_point(item.to_int()),
    {
        let above = match self.start {
            Bound::Included(s) => at_most(s, item),
            Bound::Excluded(s) => s.less(item),
            Bound::Unbounded => {
                proof {
                    item.lemma_in_domain();
                }
                true
            },
        };
        let below = match self.end {
            Bound::Included(e) => at_most(item, e),
            Bound::Excluded(e) => item.less(e),
            Bound::Unbounded => {
                proof {
                    item.lemma_in_domain();
                }
                true
            },
        };
        above && below
    }

    /// The least point of a range that is not empty.
    fn first(&self) -> (r: T)
        requires
            !self.empty(),
        ensures
            r.to_int() == self.lower(),
    {
        proof {
            self.lemma_ends();
        }
        match self.start {
            Bound::Included(n) => n,
            Bound::Excluded(n) => n.succ(),
            Bound::Unbounded => T::min_value(),
        }
    }

    /// The greatest point of a range that is not empty.
    fn last(&self) -> (r: T)
        requires
            !self.empty(),
        ensures
            r.to_int() == self.upper(),
    {
        proof {
            self.lemma_ends();
        }
        match self.end {
            Bound::Included(n) => n,
            Bound::Excluded(n) => n.pred(),
            Bound::Unbounded => T::max_value(),
        }
    }

    /// The range in inclusive form: its least and greatest point.  An empty
    /// range has none and is refused.
    pub fn to_inclusive(&self) -> (r: Result<Inclusive<T>, Error>)
        ensures
            ends_of(r) == self.inclusive(),
    {
        if self.is_empty_range() {
            return Err(Error::EmptyRange);
        }
        let s = self.first();
        let e = self.last();
        Ok(Inclusive { start: s, end: e })
    }

    /// Every point of `other` is a point of `self`, given that neither is
    /// empty: `self` starts no later and ends no earlier.
    pub open spec fn covers(self, other: IntRange<T>) -> bool {
        self.lower() <= other.lower() && other.upper() <= self.upper()
    }

    /// The two ranges share at least one point, given that neither is empty.
    pub open spec fn overlaps(self, other: IntRange<T>) -> bool {
        self.lower() <= other.upper() && other.lower() <= self.upper()
    }

    /// `other` can be taken out of `self`: neither is empty and `self` covers
    /// `other`.
    pub open spec fn can_subtract(self, other: IntRange<T>) -> bool {
        !self.empty() && !other.empty() && self.covers(other)
    }

    /// What is left of `self` below `other`, if anything.
    pub open spec fn left_of(self, other: IntRange<T>) -> Option<(int, int)> {
        if self.lower() < other.lower() {
            Some((self.lower(), other.lower() - 1))
        } else {
            None
        }
    }

    /// What is left of `self` above `other`, if anything.
    pub open spec fn right_of(self, other: IntRange<T>) -> Option<(int, int)> {
        if other.upper() < self.upper() {
            Some((other.upper() + 1, self.upper()))
        } else {
            None
        }
    }

    /// What `to_inclusive` gives: the least and greatest point, unless the
    /// range is empty.
    pub open spec fn inclusive(self) -> Result<(int, int), Error> {
        if self.empty() {
            Err(Error::EmptyRange)
        } else {
            Ok((self.lower(), self.upper()))
        }
    }

    /// What `contains_subrange` gives: whether `self` covers `other`, unless
    /// one of them is empty.
    pub open spec fn containment(self, other: IntRange<T>) -> Result<bool, Error> {
        if self.empty() || other.empty() {
            Err(Error::EmptyRange)
        } else {
            Ok(self.covers(other))
        }
    }

    /// What `equal` gives: neither range is empty and their ends agree.
    pub open spec fn same_points(self, other: IntRange<T>) -> bool {
        !self.empty() && !other.empty() && self.lower() == other.lower() && self.upper()
            == other.upper()
    }

    /// What `intersect` gives: whether the ranges overlap, unless one of them
    /// is empty.
    pub open spec fn intersection(self, other: IntRange<T>) -> Result<bool, Error> {
        if self.empty() || other.empty() {
            Err(Error::EmptyRange)
        } else {
            Ok(self.overlaps(other))
        }
    }

    /// What `substract` gives: the remainders below and above `other`.  An
    /// empty operand is refused as such; otherwise `other` is refused where
    /// `self` does not cover it.
    pub open spec fn difference(self, other: IntRange<T>) -> Result<
        (Option<(int, int)>, Option<(int, int)>),
        Error,
    > {
        if self.empty() || other.empty() {
            Err(Error::EmptyRange)
        } else if !self.covers(other) {
            Err(Error::SelfDoNotContainOtherRange)
        } else {
            Ok((self.left_of(other), self.right_of(other)))
        }
    }

    /// Whether `self` holds every point of `other`.  Both must hold at least
    /// one point; otherwise the question is refused.
    ///
    /// The ends are compared in the form they were given, so that no step
    /// beyond the domain is ever taken.
    pub fn contains_subrange(&self, other: &IntRange<T>) -> (r: Result<bool, Error>)
        ensures
            r == self.containment(*other),
    {
        if self.is_empty_range() || other.is_empty_range() {
            return Err(Error::EmptyRange);
        }
        proof {
            self.lemma_ends();
            other.lemma_ends();
        }
        match other.start {
            Bound::Included(n) => {
                if !self.contains(n) {
                    return Ok(false);
                }
            },
            Bound::Excluded(n) => match self.start {
                Bound::Included(x) => {
                    if n.less(x) && n.succ().less(x) {
                        return Ok(false);
                    }
                },
                Bound::Excluded(x) => {
                    if n.less(x) {
                        return Ok(false);
                    }
                },
                Bound::Unbounded => {},
            },
            Bound::Unbounded => match self.start {
                Bound::Included(n) => {
                    if !same(n, T::min_value()) {
                        return Ok(false);
                    }
                },
                Bound::Excluded(_) => {
                    return Ok(false);
                },
                Bound::Unbounded => {},
            },
        }
        match other.end {
            Bound::Included(n) => {
                if !self.contains(n) {
                    return Ok(false);
                }
            },
            Bound::Excluded(n) => match self.end {
                Bound::Included(x) => {
                    if x.less(n) && x.succ().less(n) {
                        return Ok(false);
                    }
                },
                Bound::Excluded(x) => {
                    if x.less(n) {
                        return Ok(false);
                    }
                },
                Bound::Unbounded => {},
            },
            Bound::Unbounded => match self.end {
                Bound::Included(n) => {
                    if !same(n, T::max_value()) {
                        return Ok(false);
                    }
                },
                Bound::Excluded(_) => {
                    return Ok(false);
                },
                Bound::Unbounded => {},
            },
        }
        Ok(true)
    }

    /// Whether the two ranges hold the same points: each holds every point of
    /// the other.  An empty range equals nothing, itself included.
    pub fn equal(&self, other: &IntRange<T>) -> (b: bool)
        ensures
            b == self.same_points(*other),
    {
        let forth = match self.contains_subrange(other) {
            Ok(v) => v,
            Err(_) => false,
        };
        let back = match other.contains_subrange(self) {
            Ok(v) => v,
            Err(_) => false,
        };
        forth && back
    }

    /// Takes `other` out of `self` and returns what is left below it and what
    /// is left above it, each absent where nothing is left.  Refused with
    /// `EmptyRange` where either range is empty, and with
    /// `SelfDoNotContainOtherRange` where some point of `other` is no point of
    /// `self`.
    pub fn substract(&self, other: &IntRange<T>) -> (r: Result<
        (Option<Inclusive<T>>, Option<Inclusive<T>>),
        Error,
    >)
        ensures
            remainders(r) == self.difference(*other),
    {
        let inside = match self.contains_subrange(other) {
            Ok(v) => v,
            Err(e) => {
                return Err(e);
            },
        };
        if !inside {
            return Err(Error::SelfDoNotContainOtherRange);
        }
        proof {
            self.lemma_ends();
            other.lemma_ends();
        }
        let lo = self.first();
        let hi = self.last();
        // from the start of `self` up to just below `other`
        let r1 = match other.start {
            Bound::Included(e) => {
                if lo.less(e) {
                    Some(Inclusive { start: lo, end: e.pred() })
                } else {
                    None
                }
            },
            Bound::Excluded(e) => {
                if at_most(lo, e) {
                    Some(Inclusive { start: lo, end: e })
                } else {
                    None
                }
            },
            Bound::Unbounded => None,
        };
        // from just above `other` up to the end of `self`
        let r2 = match other.end {
            Bound::Included(s) => {
                if s.less(hi) {
                    Some(Inclusive { start: s.succ(), end: hi })
                } else {
                    None
                }
            },
            Bound::Excluded(s) => {
                if at_most(s, hi) {
                    Some(Inclusive { start: s, end: hi })
                } else {
                    None
                }
            },
            Bound::Unbounded => None,
        };
        Ok((r1, r2))
    }

    /// Whether the two ranges share a point.  Both must hold at least one
    /// point; otherwise the question is refused.
    pub fn intersect(&self, other: &IntRange<T>) -> (r: Result<bool, Error>)
        ensures
            r == self.intersection(*other),
    {
        if self.is_empty_range() || other.is_empty_range() {
            return Err(Error::EmptyRange);
        }
        let forth = match self.contains_subrange(other) {
            Ok(v) => v,
            Err(_) => false,
        };
        let back = match other.contains_subrange(self) {
            Ok(v) => v,
            Err(_) => false,
        };
        if forth || back {
            return Ok(true);
        }
        // neither holds the other, so any shared point includes an end of `self`
        let s = self.first();
        let e = self.last();
        Ok(other.contains(s) || other.contains(e))
    }
}

/// How the two ends of a written range are joined.
#[derive(Clone, Copy, Debug, PartialEq, Eq)]
pub enum RangeLimits {
    /// `a..b`: the end is left out.
    HalfOpen,
    /// `a..=b`: the end is part of the range.
    Closed,
}

/// A range as it is written: either end may be missing, and the end counts or
/// not according to `limits`.
#[derive(Clone, Copy, Debug, PartialEq, Eq)]
pub struct RangeExpr<T> {
    pub start: Option<T>,
    pub end: Option<T>,
    pub limits: RangeLimits,
}

impl<T: Integer> RangeExpr<T> {
    /// The range that the expression denotes.  A missing end is the end of the
    /// domain; an end that is written counts unless the range is half-open.
    pub open spec fn range(self) -> IntRange<T> {
        IntRange {
            start: match self.start {
                Some(v) => Bound::Included(v),
                None => Bound::Unbounded,
            },
            end: match (self.end, self.limits) {
                (Some(v), RangeLimits::HalfOpen) => Bound::Excluded(v),
                (Some(v), RangeLimits::Closed) => Bound::Included(v),
                (None, _) => Bound::Unbounded,
            },
        }
    }
}

/// The inclusive form of a written range, refused where the range is empty.
pub fn expr_to_range<T: Integer>(expr: &RangeExpr<T>) -> (r: Result<Inclusive<T>, Error>)
    ensures
        ends_of(r) == expr.range().inclusive(),
{
    let start = match expr.start {
        Some(n) => n,
        None => T::min_value(),
    };
    let end = match expr.end {
        Some(n) => n,
        None => T::max_value(),
    };
    let closed = IntRange { start: Bound::Included(start), end: Bound::Included(end) };
    match expr.limits {
        RangeLimits::HalfOpen => {
            if expr.end.is_none() {
                closed.to_inclusive()
            } else {
                IntRange { start: Bound::Included(start), end: Bound::Excluded(end) }.to_inclusive()
            }
        },
        RangeLimits::Closed => closed.to_inclusive(),
    }
}

} // verus!
