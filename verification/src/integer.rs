//! The integer domains the interval algebra works over.

use vstd::prelude::*;

verus! {

/// A fixed-width integer domain: a finite, totally ordered span of
/// mathematical integers from `min_int()` to `max_int()`.
///
/// Every value stands for exactly one integer of the span, and stepping by
/// one is only offered where the neighbour exists, so nothing here wraps.
pub trait Integer: Copy + Sized {
    /// The mathematical integer this value stands for.
    spec fn to_int(self) -> int;

    /// The least integer of the domain.
    spec fn min_int() -> int;

    /// The greatest integer of the domain.
    spec fn max_int() -> int;

    /// Every value lies within the domain.
    proof fn lemma_in_domain(self)
        ensures
            Self::min_int() <= self.to_int() <= Self::max_int(),
    ;

    /// Two values that stand for the same integer are the same value.
    proof fn lemma_injective(a: Self, b: Self)
        requires
            a.to_int() == b.to_int(),
        ensures
            a == b,
    ;

    /// The least value of the domain.
    fn min_value() -> (r: Self)
        ensures
            r.to_int() == Self::min_int(),
    ;

    /// The greatest value of the domain.
    fn max_value() -> (r: Self)
        ensures
            r.to_int() == Self::max_int(),
    ;

    /// Strict order.
    fn less(self, other: Self) -> (b: bool)
        ensures
            b == (self.to_int() < other.to_int()),
    ;

    /// The next value up; the greatest value has none.
    fn succ(self) -> (r: Self)
        requires
            self.to_int() < Self::max_int(),
        ensures
            r.to_int() == self.to_int() + 1,
    ;

    /// The next value down; the least value has none.
    fn pred(self) -> (r: Self)
        requires
            self.to_int() > Self::min_int(),
        ensures
            r.to_int() == self.to_int() - 1,
    ;
}

impl Integer for u8 {
    open spec fn to_int(self) -> int {
        self as int
    }

    open spec fn min_int() -> int {
        u8::MIN as int
    }

    open spec fn max_int() -> int {
        u8::MAX as int
    }

    proof fn lemma_in_domain(self) {
    }

    proof fn lemma_injective(a: Self, b: Self) {
    }

    fn min_value() -> (r: Self) {
        u8::MIN
    }

    fn max_value() -> (r: Self) {
        u8::MAX
    }

    fn less(self, other: Self) -> (b: bool) {
        self < other
    }

    fn succ(self) -> (r: Self) {
        self + 1
    }

    fn pred(self) -> (r: Self) {
        self - 1
    }
}

impl Integer for u16 {
    open spec fn to_int(self) -> int {
        self as int
    }

    open spec fn min_int() -> int {
        u16::MIN as int
    }

    open spec fn max_int() -> int {
        u16::MAX as int
    }

    proof fn lemma_in_domain(self) {
    }

    proof fn lemma_injective(a: Self, b: Self) {
    }

    fn min_value() -> (r: Self) {
        u16::MIN
    }

    fn max_value() -> (r: Self) {
        u16::MAX
    }

    fn less(self, other: Self) -> (b: bool) {
        self < other
    }

    fn succ(self) -> (r: Self) {
        self + 1
    }

    fn pred(self) -> (r: Self) {
        self - 1
    }
}

impl Integer for u32 {
    open spec fn to_int(self) -> int {
        self as int
    }

    open spec fn min_int() -> int {
        u32::MIN as int
    }

    open spec fn max_int() -> int {
        u32::MAX as int
    }

    proof fn lemma_in_domain(self) {
    }

    proof fn lemma_injective(a: Self, b: Self) {
    }

    fn min_value() -> (r: Self) {
        u32::MIN
    }

    fn max_value() -> (r: Self) {
        u32::MAX
    }

    fn less(self, other: Self) -> (b: bool) {
        self < other
    }

    fn succ(self) -> (r: Self) {
        self + 1
    }

    fn pred(self) -> (r: Self) {
        self - 1
    }
}

impl Integer for u64 {
    open spec fn to_int(self) -> int {
        self as int
    }

    open spec fn min_int() -> int {
        u64::MIN as int
    }

    open spec fn max_int() -> int {
        u64::MAX as int
    }

    proof fn lemma_in_domain(self) {
    }

    proof fn lemma_injective(a: Self, b: Self) {
    }

    fn min_value() -> (r: Self) {
        u64::MIN
    }

    fn max_value() -> (r: Self) {
        u64::MAX
    }

    fn less(self, other: Self) -> (b: bool) {
        self < other
    }

    fn succ(self) -> (r: Self) {
        self + 1
    }

    fn pred(self) -> (r: Self) {
        self - 1
    }
}

impl Integer for u128 {
    open spec fn to_int(self) -> int {
        self as int
    }

    open spec fn min_int() -> int {
        u128::MIN as int
    }

    open spec fn max_int() -> int {
        u128::MAX as int
    }

    proof fn lemma_in_domain(self) {
    }

    proof fn lemma_injective(a: Self, b: Self) {
    }

    fn min_value() -> (r: Self) {
        u128::MIN
    }

    fn max_value() -> (r: Self) {
        u128::MAX
    }

    fn less(self, other: Self) -> (b: bool) {
        self < other
    }

    fn succ(self) -> (r: Self) {
        self + 1
    }

    fn pred(self) -> (r: Self) {
        self - 1
    }
}

impl Integer for usize {
    open spec fn to_int(self) -> int {
        self as int
    }

    open spec fn min_int() -> int {
        usize::MIN as int
    }

    open spec fn max_int() -> int {
        usize::MAX as int
    }

    proof fn lemma_in_domain(self) {
    }

    proof fn lemma_injective(a: Self, b: Self) {
    }

    fn min_value() -> (r: Self) {
        usize::MIN
    }

    fn max_value() -> (r: Self) {
        usize::MAX
    }

    fn less(self, other: Self) -> (b: bool) {
        self < other
    }

    fn succ(self) -> (r: Self) {
        self + 1
    }

    fn pred(self) -> (r: Self) {
        self - 1
    }
}

impl Integer for i8 {
    open spec fn to_int(self) -> int {
        self as int
    }

    open spec fn min_int() -> int {
        i8::MIN as int
    }

    open spec fn max_int() -> int {
        i8::MAX as int
    }

    proof fn lemma_in_domain(self) {
    }

    proof fn lemma_injective(a: Self, b: Self) {
    }

    fn min_value() -> (r: Self) {
        i8::MIN
    }

    fn max_value() -> (r: Self) {
        i8::MAX
    }

    fn less(self, other: Self) -> (b: bool) {
        self < other
    }

    fn succ(self) -> (r: Self) {
        self + 1
    }

    fn pred(self) -> (r: Self) {
        self - 1
    }
}

impl Integer for i16 {
    open spec fn to_int(self) -> int {
        self as int
    }

    open spec fn min_int() -> int {
        i16::MIN as int
    }

    open spec fn max_int() -> int {
        i16::MAX as int
    }

    proof fn lemma_in_domain(self) {
    }

    proof fn lemma_injective(a: Self, b: Self) {
    }

    fn min_value() -> (r: Self) {
        i16::MIN
    }

    fn max_value() -> (r: Self) {
        i16::MAX
    }

    fn less(self, other: Self) -> (b: bool) {
        self < other
    }

    fn succ(self) -> (r: Self) {
        self + 1
    }

    fn pred(self) -> (r: Self) {
        self - 1
    }
}

impl Integer for i32 {
    open spec fn to_int(self) -> int {
        self as int
    }

    open spec fn min_int() -> int {
        i32::MIN as int
    }

    open spec fn max_int() -> int {
        i32::MAX as int
    }

    proof fn lemma_in_domain(self) {
    }

    proof fn lemma_injective(a: Self, b: Self) {
    }

    fn min_value() -> (r: Self) {
        i32::MIN
    }

    fn max_value() -> (r: Self) {
        i32::MAX
    }

    fn less(self, other: Self) -> (b: bool) {
        self < other
    }

    fn succ(self) -> (r: Self) {
        self + 1
    }

    fn pred(self) -> (r: Self) {
        self - 1
    }
}

impl Integer for i64 {
    open spec fn to_int(self) -> int {
        self as int
    }

    open spec fn min_int() -> int {
        i64::MIN as int
    }

    open spec fn max_int() -> int {
        i64::MAX as int
    }

    proof fn lemma_in_domain(self) {
    }

    proof fn lemma_injective(a: Self, b: Self) {
    }

    fn min_value() -> (r: Self) {
        i64::MIN
    }

    fn max_value() -> (r: Self) {
        i64::MAX
    }

    fn less(self, other: Self) -> (b: bool) {
        self < other
    }

    fn succ(self) -> (r: Self) {
        self + 1
    }

    fn pred(self) -> (r: Self) {
        self - 1
    }
}

impl Integer for i128 {
    open spec fn to_int(self) -> int {
        self as int
    }

    open spec fn min_int() -> int {
        i128::MIN as int
    }

    open spec fn max_int() -> int {
        i128::MAX as int
    }

    proof fn lemma_in_domain(self) {
    }

    proof fn lemma_injective(a: Self, b: Self) {
    }

    fn min_value() -> (r: Self) {
        i128::MIN
    }

    fn max_value() -> (r: Self) {
        i128::MAX
    }

    fn less(self, other: Self) -> (b: bool) {
        self < other
    }

    fn succ(self) -> (r: Self) {
        self + 1
    }

    fn pred(self) -> (r: Self) {
        self - 1
    }
}

impl Integer for isize {
    open spec fn to_int(self) -> int {
        self as int
    }

    open spec fn min_int() -> int {
        isize::MIN as int
    }

    open spec fn max_int() -> int {
        isize::MAX as int
    }

    proof fn lemma_in_domain(self) {
    }

    proof fn lemma_injective(a: Self, b: Self) {
    }

    fn min_value() -> (r: Self) {
        isize::MIN
    }

    fn max_value() -> (r: Self) {
        isize::MAX
    }

    fn less(self, other: Self) -> (b: bool) {
        self < other
    }

    fn succ(self) -> (r: Self) {
        self + 1
    }

    fn pred(self) -> (r: Self) {
        self - 1
    }
}

} // verus!
