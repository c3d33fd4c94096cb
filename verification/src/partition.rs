//! What is left of a range as sub-ranges are taken out of it.
//!
//! The tracker is modelled by the sequence of its intervals, each a pair of
//! mathematical integers `(lo, hi)`.  The intervals are never empty, lie in
//! ascending order and share no point.

use vstd::prelude::*;
use crate::integer::Integer;
use crate::interval::{Error, Inclusive, IntRange};

verus! {

/// The ends of each interval of a sequence.
pub open spec fn spans<T: Integer>(s: Seq<Inclusive<T>>) -> Seq<(int, int)> {
    Seq::new(s.len(), |i: int| s[i]@)
}

/// No interval is empty, and each one ends before the next begins.
pub open spec fn ascending(s: Seq<(int, int)>) -> bool {
    &&& forall|i: int| 0 <= i < s.len() ==> (#[trigger] s[i]).0 <= s[i].1
    &&& forall|i: int, j: int| 0 <= i < j < s.len() ==> (#[trigger] s[i]).1 < (#[trigger] s[j]).0
}

/// The span `lo..=hi` holds a point and lies wholly inside `iv`.
pub open spec fn inside(iv: (int, int), lo: int, hi: int) -> bool {
    lo <= hi && iv.0 <= lo && hi <= iv.1
}

/// What `lo..=hi` leaves of one interval: the part below and the part above
/// where `lo..=hi` lies inside the interval, and the interval itself where it
/// does not.
pub open spec fn without(iv: (int, int), lo: int, hi: int) -> Seq<(int, int)> {
    if inside(iv, lo, hi) {
        let below = if iv.0 < lo {
            seq![(iv.0, lo - 1)]
        } else {
            seq![]
        };
        let above = if hi < iv.1 {
            seq![(hi + 1, iv.1)]
        } else {
            seq![]
        };
        below + above
    } else {
        seq![iv]
    }
}

/// What `lo..=hi` leaves of a sequence of intervals: what it leaves of each,
/// in the same order.
pub open spec fn remove(s: Seq<(int, int)>, lo: int, hi: int) -> Seq<(int, int)>
    decreases s.len(),
{
    if s.len() == 0 {
        seq![]
    } else {
        remove(s.drop_last(), lo, hi) + without(s.last(), lo, hi)
    }
}

/// The span `lo..=hi` lies inside one of the intervals.
pub open spec fn touches(s: Seq<(int, int)>, lo: int, hi: int) -> bool {
    exists|i: int| 0 <= i < s.len() && inside(#[trigger] s[i], lo, hi)
}

/// Some interval of the sequence holds the point `x`.
pub open spec fn holds(s: Seq<(int, int)>, x: int) -> bool {
    exists|i: int| 0 <= i < s.len() && (#[trigger] s[i]).0 <= x <= s[i].1
}

/// The disjoint intervals that remain of a range after removals.
#[derive(Debug)]
pub struct RangeSubtracter<T: Integer> {
    vec: Vec<Inclusive<T>>,
}

impl<T: Integer> View for RangeSubtracter<T> {
    type V = Seq<(int, int)>;

    /// The ends of the remaining intervals, in order.
    closed spec fn view(&self) -> Seq<(int, int)> {
        spans(self.vec@)
    }
}

impl<T: Integer> RangeSubtracter<T> {
    /// The intervals are never empty, ascend and share no point.
    #[verifier::type_invariant]
    spec fn inv(self) -> bool {
        ascending(spans(self.vec@))
    }

    /// A tracker that holds all of `range`, which must not be empty.
    pub fn new(range: IntRange<T>) -> (r: Result<Self, Error>)
        ensures
            range.empty() ==> r is Err && r->Err_0 == Error::EmptyRange,
            !range.empty() ==> r is Ok && r->Ok_0@ == seq![(range.lower(), range.upper())],
    {
        match range.to_inclusive() {
            Ok(iv) => {
                let mut vec: Vec<Inclusive<T>> = Vec::new();
                vec.push(iv);
                let out = RangeSubtracter { vec };
                assert(out@ =~= seq![(range.lower(), range.upper())]);
                Ok(out)
            },
            Err(e) => Err(e),
        }
    }

    /// Whether nothing is left.
    pub fn is_empty(&self) -> (b: bool)
        ensures
            b == (self@.len() == 0),
            ascending(self@),
    {
        proof {
            use_type_invariant(self);
        }
        self.vec.len() == 0
    }

    /// The remaining intervals, in ascending order.
    pub fn ranges(&self) -> (v: &Vec<Inclusive<T>>)
        ensures
            spans(v@) == self@,
            ascending(self@),
    {
        proof {
            use_type_invariant(self);
        }
        &self.vec
    }

    /// Takes `other` out of every remaining interval that holds all of it.
    /// Such an interval is replaced by what is left of it below and above
    /// `other`; every other interval stays as it is.  Fails, leaving the
    /// tracker as it was, when no interval holds all of `other`.
    pub fn substract(&mut self, other: &IntRange<T>) -> (r: Result<(), ()>)
        ensures
            ascending(old(self)@),
            ascending(final(self)@),
            final(self)@ == remove(old(self)@, other.lower(), other.upper()),
            r is Ok <==> touches(old(self)@, other.lower(), other.upper()),
            r is Err ==> final(self)@ == old(self)@,
    {
        proof {
            use_type_invariant(&*self);
        }
        let ghost lo = other.lower();
        let ghost hi = other.upper();
        let ghost before = self@;
        let mut touched = false;
        let mut new_vec: Vec<Inclusive<T>> = Vec::new();
        let n = self.vec.len();
        let mut i: usize = 0;
        while i < n
            invariant
                i <= n,
                n == self.vec.len(),
                before == spans(self.vec@),
                lo == other.lower(),
                hi == other.upper(),
                spans(new_vec@) == remove(before.subrange(0, i as int), lo, hi),
                touched == touches(before.subrange(0, i as int), lo, hi),
            decreases n - i,
        {
            let iv = self.vec[i];
            let ghost done = new_vec@;
            let ghost prefix = before.subrange(0, i as int);
            let ghost next = before.subrange(0, i as int + 1);
            proof {
                assert(next.drop_last() =~= prefix);
                assert(next.last() == iv@);
                assert(touches(next, lo, hi) == (touches(prefix, lo, hi) || inside(iv@, lo, hi)))
                    by {
                    if touches(prefix, lo, hi) {
                        let k = choose|k: int| 0 <= k < prefix.len() && inside(#[trigger] prefix[k], lo, hi);
                        assert(inside(next[k], lo, hi));
                    }
                    if inside(iv@, lo, hi) {
                        assert(inside(next[i as int], lo, hi));
                    }
                    if touches(next, lo, hi) {
                        let k = choose|k: int| 0 <= k < next.len() && inside(#[trigger] next[k], lo, hi);
                        if k < i {
                            assert(inside(prefix[k], lo, hi));
                        }
                    }
                }
            }
            match iv.to_range().substract(other) {
                Ok((below, above)) => {
                    match below {
                        Some(r1) => {
                            new_vec.push(r1);
                        },
                        None => {},
                    }
                    match above {
                        Some(r2) => {
                            new_vec.push(r2);
                        },
                        None => {},
                    }
                    touched = true;
                },
                Err(_) => {
                    new_vec.push(iv);
                },
            }
            proof {
                assert(spans(new_vec@) =~= spans(done) + without(iv@, lo, hi));
            }
            i = i + 1;
        }
        proof {
            assert(before.subrange(0, n as int) =~= before);
            lemma_remove_ascending(before, lo, hi);
            if !touched {
                lemma_remove_untouched(before, lo, hi);
            }
        }
        self.vec = new_vec;
        if touched {
            Ok(())
        } else {
            Err(())
        }
    }
}

/// Removing a span that lies inside none of the intervals changes nothing.
pub proof fn lemma_remove_untouched(s: Seq<(int, int)>, lo: int, hi: int)
    requires
        !touches(s, lo, hi),
    ensures
        remove(s, lo, hi) == s,
    decreases s.len(),
{
    if s.len() > 0 {
        let init = s.drop_last();
        assert(!touches(init, lo, hi)) by {
            if touches(init, lo, hi) {
                let k = choose|k: int| 0 <= k < init.len() && inside(#[trigger] init[k], lo, hi);
                assert(inside(s[k], lo, hi));
            }
        }
        lemma_remove_untouched(init, lo, hi);
        assert(!inside(s[s.len() - 1], lo, hi));
        assert(init + seq![s.last()] =~= s);
    } else {
        assert(remove(s, lo, hi) =~= s);
    }
}

/// Every interval that a removal leaves holds a point, begins no earlier than
/// the first interval it started from and ends no later than the last.
pub proof fn lemma_remove_within(s: Seq<(int, int)>, lo: int, hi: int, k: int)
    requires
        ascending(s),
        0 <= k < remove(s, lo, hi).len(),
    ensures
        s.len() > 0,
        s[0].0 <= remove(s, lo, hi)[k].0,
        remove(s, lo, hi)[k].0 <= remove(s, lo, hi)[k].1,
        remove(s, lo, hi)[k].1 <= s.last().1,
    decreases s.len(),
{
    if s.len() > 0 {
        let init = s.drop_last();
        let head = remove(init, lo, hi);
        assert(ascending(init));
        if k < head.len() {
            lemma_remove_within(init, lo, hi, k);
            assert(init.last() == s[s.len() - 2]);
            assert(init[0] == s[0]);
        } else {
            assert(s[0].0 <= s.last().0) by {
                if s.len() > 1 {
                    assert(s[0].1 < s[s.len() - 1].0);
                }
            }
        }
    }
}

/// A removal keeps the intervals non-empty, ascending and disjoint.
pub proof fn lemma_remove_ascending(s: Seq<(int, int)>, lo: int, hi: int)
    requires
        ascending(s),
    ensures
        ascending(remove(s, lo, hi)),
    decreases s.len(),
{
    if s.len() > 0 {
        let init = s.drop_last();
        let head = remove(init, lo, hi);
        let tail = without(s.last(), lo, hi);
        let out = remove(s, lo, hi);
        assert(ascending(init));
        lemma_remove_ascending(init, lo, hi);
        assert forall|i: int, j: int| 0 <= i < j < out.len() implies (#[trigger] out[i]).1 < (
        #[trigger] out[j]).0 by {
            if i < head.len() && j >= head.len() {
                lemma_remove_within(init, lo, hi, i);
                assert(init.last() == s[s.len() - 2]);
                assert(s[s.len() - 2].1 < s[s.len() - 1].0);
            }
        }
        assert forall|i: int| 0 <= i < out.len() implies (#[trigger] out[i]).0 <= out[i].1 by {
            if i < head.len() {
                assert(out[i] == head[i]);
            }
        }
    }
}

/// A point lies in one of two sequences of intervals laid end to end exactly
/// when it lies in one of the two.
pub proof fn lemma_holds_concat(a: Seq<(int, int)>, b: Seq<(int, int)>, x: int)
    ensures
        holds(a + b, x) <==> holds(a, x) || holds(b, x),
{
    let ab = a + b;
    if holds(a, x) {
        let i = choose|i: int| 0 <= i < a.len() && (#[trigger] a[i]).0 <= x <= a[i].1;
        assert(ab[i] == a[i]);
    }
    if holds(b, x) {
        let i = choose|i: int| 0 <= i < b.len() && (#[trigger] b[i]).0 <= x <= b[i].1;
        assert(ab[a.len() + i] == b[i]);
    }
    if holds(ab, x) {
        let i = choose|i: int| 0 <= i < ab.len() && (#[trigger] ab[i]).0 <= x <= ab[i].1;
        if i < a.len() {
            assert(a[i] == ab[i]);
        } else {
            assert(b[i - a.len()] == ab[i]);
        }
    }
}

/// A span lies inside an interval of two sequences laid end to end exactly
/// when it lies inside an interval of one of the two.
pub proof fn lemma_touches_concat(a: Seq<(int, int)>, b: Seq<(int, int)>, lo: int, hi: int)
    ensures
        touches(a + b, lo, hi) <==> touches(a, lo, hi) || touches(b, lo, hi),
{
    let ab = a + b;
    if touches(a, lo, hi) {
        let i = choose|i: int| 0 <= i < a.len() && inside(#[trigger] a[i], lo, hi);
        assert(ab[i] == a[i]);
    }
    if touches(b, lo, hi) {
        let i = choose|i: int| 0 <= i < b.len() && inside(#[trigger] b[i], lo, hi);
        assert(ab[a.len() + i] == b[i]);
    }
    if touches(ab, lo, hi) {
        let i = choose|i: int| 0 <= i < ab.len() && inside(#[trigger] ab[i], lo, hi);
        if i < a.len() {
            assert(a[i] == ab[i]);
        } else {
            assert(b[i - a.len()] == ab[i]);
        }
    }
}

/// Once a span has been removed, it lies inside none of the intervals that
/// are left: removing it a second time touches nothing.
pub proof fn lemma_removed_span_is_gone(s: Seq<(int, int)>, lo: int, hi: int)
    ensures
        !touches(remove(s, lo, hi), lo, hi),
        remove(remove(s, lo, hi), lo, hi) == remove(s, lo, hi),
    decreases s.len(),
{
    if s.len() > 0 {
        let head = remove(s.drop_last(), lo, hi);
        let tail = without(s.last(), lo, hi);
        lemma_removed_span_is_gone(s.drop_last(), lo, hi);
        lemma_touches_concat(head, tail, lo, hi);
        if touches(tail, lo, hi) {
            let i = choose|i: int| 0 <= i < tail.len() && inside(#[trigger] tail[i], lo, hi);
            assert(false);
        }
    }
    lemma_remove_untouched(remove(s, lo, hi), lo, hi);
}

/// A removal takes away the points of the removed span and no others, where
/// the span lies inside one of the intervals; where it lies inside none, every
/// point stays.
pub proof fn lemma_remove_points(s: Seq<(int, int)>, lo: int, hi: int, x: int)
    requires
        ascending(s),
    ensures
        holds(remove(s, lo, hi), x) <==> holds(s, x) && !(touches(s, lo, hi) && lo <= x <= hi),
    decreases s.len(),
{
    if s.len() > 0 {
        let init = s.drop_last();
        let last = s.last();
        let head = remove(init, lo, hi);
        let tail = without(last, lo, hi);
        assert(ascending(init));
        assert(init + seq![last] =~= s);
        lemma_remove_points(init, lo, hi, x);
        lemma_holds_concat(head, tail, x);
        lemma_holds_concat(init, seq![last], x);
        lemma_touches_concat(init, seq![last], lo, hi);
        let in_last = last.0 <= x <= last.1;
        assert(holds(seq![last], x) == in_last) by {
            if in_last {
                assert(seq![last][0] == last);
            }
        }
        assert(touches(seq![last], lo, hi) == inside(last, lo, hi)) by {
            if inside(last, lo, hi) {
                assert(seq![last][0] == last);
            }
        }
        assert(holds(tail, x) == (in_last && !(inside(last, lo, hi) && lo <= x <= hi))) by {
            if holds(tail, x) {
                let i = choose|i: int| 0 <= i < tail.len() && (#[trigger] tail[i]).0 <= x <= tail[i].1;
            }
            if in_last && !(inside(last, lo, hi) && lo <= x <= hi) {
                if inside(last, lo, hi) {
                    if x < lo {
                        assert(tail[0] == (last.0, lo - 1));
                    } else {
                        assert(tail[tail.len() - 1] == (hi + 1, last.1));
                    }
                } else {
                    assert(tail[0] == last);
                }
            }
        }
        // the intervals share no point, so a point of the last lies in none before it,
        // and a span inside an earlier one holds no point of the last
        if holds(init, x) {
            let i = choose|i: int| 0 <= i < init.len() && (#[trigger] init[i]).0 <= x <= init[i].1;
            assert(init[i] == s[i]);
            assert(s[i].1 < s[s.len() - 1].0);
        }
        if touches(init, lo, hi) {
            let i = choose|i: int| 0 <= i < init.len() && inside(#[trigger] init[i], lo, hi);
            assert(init[i] == s[i]);
            assert(s[i].1 < s[s.len() - 1].0);
        }
    }
}

} // verus!
