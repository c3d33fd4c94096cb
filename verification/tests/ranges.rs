use inttype_enum::{Bound, Error, Inclusive, IntRange, Integer};
use std::ops::{RangeBounds, RangeInclusive};

fn bound<T: Integer>(b: std::ops::Bound<&T>) -> Bound<T> {
    match b {
        std::ops::Bound::Included(v) => Bound::Included(*v),
        std::ops::Bound::Excluded(v) => Bound::Excluded(*v),
        std::ops::Bound::Unbounded => Bound::Unbounded,
    }
}

fn r<T: Integer, B: RangeBounds<T>>(b: B) -> IntRange<T> {
    IntRange::new(bound(b.start_bound()), bound(b.end_bound()))
}

fn inc<T: Integer>(b: RangeInclusive<T>) -> Inclusive<T> {
    Inclusive { start: *b.start(), end: *b.end() }
}

#[test]
fn empty() {
    let x = r(0..0);
    assert_eq!(x.is_empty_range(), true);

    let x = r(0..=0);
    assert_eq!(x.is_empty_range(), false);

    let x = r(u8::MAX..u8::MAX);
    assert_eq!(x.is_empty_range(), true);

    let x = r(u8::MIN..u8::MIN);
    assert_eq!(x.is_empty_range(), true);

    let x = r(u8::MAX..u8::MIN);
    assert_eq!(x.is_empty_range(), true);

    let x = r(u8::MIN..u8::MAX);
    assert_eq!(x.is_empty_range(), false);

    assert_eq!(r(1..0).is_empty_range(), true);
    assert_eq!(r(1..=0).is_empty_range(), true);

    assert_eq!(r(..u8::MIN).is_empty_range(), true);
    assert_eq!(r(u8::MAX..).is_empty_range(), false);
}

#[test]
fn to_inclusive() {
    assert_eq!(r(..).to_inclusive(), Ok(inc(u8::MIN..=u8::MAX)));
    assert_eq!(r(u8::MIN..).to_inclusive(), Ok(inc(u8::MIN..=u8::MAX)));
    assert_eq!(r(..u8::MAX).to_inclusive(), Ok(inc(u8::MIN..=u8::MAX - 1)));
    assert_eq!(r(..=u8::MAX).to_inclusive(), Ok(inc(u8::MIN..=u8::MAX)));
    assert_eq!(r(10..20).to_inclusive(), Ok(inc(10..=19)));
    assert!(r(0..0).to_inclusive().is_err());
}

#[test]
fn contains_subrange() {
    assert_eq!(r(u8::MIN..=u8::MAX).contains_subrange(&r(..=u8::MAX)), Ok(true));
    assert_eq!(r(..=u8::MAX).contains_subrange(&r(u8::MIN..=u8::MAX)), Ok(true));
    assert_eq!(r(u8::MIN..=u8::MAX).contains_subrange(&r(..)), Ok(true));
    assert_eq!(r(..).contains_subrange(&r(u8::MIN..u8::MAX)), Ok(true));
    assert_eq!(r(..).contains_subrange(&r(u8::MIN..=u8::MAX)), Ok(true));

    assert_eq!(r::<u8, _>(..).contains_subrange(&r(0..)), Ok(true));
    assert_eq!(r::<u8, _>(..).contains_subrange(&r(..42)), Ok(true));
    assert_eq!(r::<u8, _>(..).contains_subrange(&r(0..42)), Ok(true));
    assert_eq!(r::<u8, _>(..).contains_subrange(&r(0..=42)), Ok(true));

    assert_eq!(r(2..42).contains_subrange(&r(2..42)), Ok(true));
    assert_eq!(r(2..42).contains_subrange(&r(3..42)), Ok(true));
    assert_eq!(r(2..42).contains_subrange(&r(3..41)), Ok(true));

    assert_eq!(r(2..42).contains_subrange(&r(2..=42)), Ok(false));
    assert_eq!(r(2..42).contains_subrange(&r(2..43)), Ok(false));
    assert_eq!(r(2..42).contains_subrange(&r(1..42)), Ok(false));
    assert_eq!(r(2..42).contains_subrange(&r(1..44)), Ok(false));

    assert_eq!(r(2..u8::MAX).contains_subrange(&r(2..u8::MAX)), Ok(true));
    assert_eq!(r(2..u8::MAX).contains_subrange(&r(2..=u8::MAX)), Ok(false));
    assert_eq!(r(2..u8::MAX).contains_subrange(&r(3..u8::MAX)), Ok(true));

    assert_eq!(r(2..u8::MAX).contains_subrange(&r(1..u8::MAX)), Ok(false));
    assert_eq!(r(2..u8::MAX).contains_subrange(&r(2..u8::MAX - 1)), Ok(true));
    assert_eq!(r(2..u8::MAX).contains_subrange(&r(2..=u8::MAX - 1)), Ok(true));

    assert_eq!(r(2..=u8::MAX).contains_subrange(&r(2..u8::MAX)), Ok(true));
    assert_eq!(r(2..=u8::MAX).contains_subrange(&r(2..=u8::MAX)), Ok(true));

    assert_eq!(r(2..=u8::MAX - 1).contains_subrange(&r(2..u8::MAX)), Ok(true));
    assert_eq!(r(2..=u8::MAX - 1).contains_subrange(&r(2..=u8::MAX)), Ok(false));

    assert!(r(0..10).contains_subrange(&r(0..0)).is_err());
    assert!(r(0..0).contains_subrange(&r(0..10)).is_err());
    assert!(r(0..0).contains_subrange(&r(0..0)).is_err());
}

#[test]
fn equal() {
    assert_eq!(r(0..100).equal(&r(0..=99)), true);
    assert_eq!(r(0u8..).equal(&r(0..=u8::MAX)), true);
    assert_eq!(r(..).equal(&r(0..=u8::MAX)), true);
    assert_eq!(r(..).equal(&r(u8::MIN..=u8::MAX)), true);
    assert_eq!(r(..).equal(&r(u8::MIN..u8::MAX)), false);
    assert_eq!(r(0..=u8::MAX).equal(&r(..)), true);
}

#[test]
fn sub() {
    assert_eq!(r(..).substract(&r(u8::MIN..=u8::MAX)), Ok((None, None)));
    assert_eq!(r(u8::MIN..=u8::MAX).substract(&r(..)), Ok((None, None)));
    assert_eq!(
        r(..).substract(&r(u8::MIN..u8::MAX)),
        Ok((None, Some(inc(255..=255u8))))
    );
    assert_eq!(
        r(..=u8::MAX).substract(&r(u8::MIN..u8::MAX)),
        Ok((None, Some(inc(255..=255u8))))
    );
    assert_eq!(
        r(..=u8::MAX).substract(&r(..u8::MAX)),
        Ok((None, Some(inc(255..=255u8))))
    );
    assert_eq!(
        r(..=u8::MAX).substract(&r(1..u8::MAX)),
        Ok((Some(inc(0..=0)), Some(inc(255..=255u8))))
    );

    assert_eq!(
        r(0..100).substract(&r(30..50)),
        Ok((Some(inc(0..=29)), Some(inc(50..=99))))
    );
    assert_eq!(r(0..100).substract(&r(30..100)), Ok((Some(inc(0..=29)), None)));
    assert_eq!(r(0..100).substract(&r(0..50)), Ok((None, Some(inc(50..=99)))));

    assert!(r(20..40).substract(&r(30..50)).is_err());
}

#[test]
fn intersect() {
    assert_eq!(r(0..50).intersect(&r(50..100)), Ok(false));
    assert_eq!(r(0..=50).intersect(&r(50..100)), Ok(true));
}

#[test]
fn is_empty_follows_the_nine_cases() {
    // inclusive start
    assert_eq!(r(5u8..=5).is_empty_range(), false);
    assert_eq!(r(6u8..=5).is_empty_range(), true);
    assert_eq!(r(5u8..6).is_empty_range(), false);
    assert_eq!(r(5u8..5).is_empty_range(), true);
    assert_eq!(r(255u8..).is_empty_range(), false);
    // exclusive start
    let ex = |s: u8, e: Bound<u8>| IntRange::new(Bound::Excluded(s), e);
    assert_eq!(ex(4, Bound::Included(5)).is_empty_range(), false);
    assert_eq!(ex(5, Bound::Included(5)).is_empty_range(), true);
    assert_eq!(ex(4, Bound::Excluded(6)).is_empty_range(), false);
    assert_eq!(ex(4, Bound::Excluded(5)).is_empty_range(), true);
    assert_eq!(ex(5, Bound::Excluded(5)).is_empty_range(), true);
    assert_eq!(ex(6, Bound::Excluded(5)).is_empty_range(), true);
    assert_eq!(ex(255, Bound::Excluded(0)).is_empty_range(), true);
    assert_eq!(ex(255, Bound::Excluded(255)).is_empty_range(), true);
    assert_eq!(ex(254, Bound::Excluded(255)).is_empty_range(), true);
    assert_eq!(ex(253, Bound::Excluded(255)).is_empty_range(), false);
    assert_eq!(ex(255, Bound::Unbounded).is_empty_range(), true);
    assert_eq!(ex(254, Bound::Unbounded).is_empty_range(), false);
    // no start
    assert_eq!(r(..=0u8).is_empty_range(), false);
    assert_eq!(r(..0u8).is_empty_range(), true);
    assert_eq!(r(..1u8).is_empty_range(), false);
    assert_eq!(r::<u8, _>(..).is_empty_range(), false);
}

#[test]
fn is_empty_at_the_ends_of_signed_domains() {
    let above = |s: i8| IntRange::new(Bound::Excluded(s), Bound::Unbounded);
    assert_eq!(above(i8::MAX).is_empty_range(), true);
    assert_eq!(above(i8::MAX - 1).is_empty_range(), false);
    assert_eq!(above(i8::MIN).is_empty_range(), false);
    assert_eq!(r(..i8::MIN).is_empty_range(), true);
    assert_eq!(r(..=i8::MIN).is_empty_range(), false);
    assert_eq!(r(..i128::MIN).is_empty_range(), true);
    let top = IntRange::new(Bound::Excluded(u128::MAX), Bound::Unbounded);
    assert_eq!(top.is_empty_range(), true);
    let top = IntRange::new(Bound::Excluded(u128::MAX - 1), Bound::Unbounded);
    assert_eq!(top.is_empty_range(), false);
}

#[test]
fn contains_tests_a_single_point() {
    assert_eq!(r(2u8..5).contains(2), true);
    assert_eq!(r(2u8..5).contains(4), true);
    assert_eq!(r(2u8..5).contains(5), false);
    assert_eq!(r(2u8..5).contains(1), false);
    assert_eq!(r(2u8..=5).contains(5), true);
    assert_eq!(IntRange::new(Bound::Excluded(2u8), Bound::Unbounded).contains(2), false);
    assert_eq!(IntRange::new(Bound::Excluded(2u8), Bound::Unbounded).contains(3), true);
    assert_eq!(r::<u8, _>(..).contains(0), true);
    assert_eq!(r::<u8, _>(..).contains(255), true);
    assert_eq!(r(5u8..2).contains(3), false);
}

#[test]
fn to_inclusive_gives_one_form_for_one_set_of_points() {
    let want = Ok(inc(3u8..=7));
    assert_eq!(r(3u8..=7).to_inclusive(), want);
    assert_eq!(r(3u8..8).to_inclusive(), want);
    assert_eq!(IntRange::new(Bound::Excluded(2u8), Bound::Included(7)).to_inclusive(), want);
    assert_eq!(IntRange::new(Bound::Excluded(2u8), Bound::Excluded(8)).to_inclusive(), want);
    assert_eq!(r(5u8..=5).to_inclusive(), Ok(inc(5..=5)));
    assert_eq!(r(..255u8).to_inclusive(), Ok(inc(0..=254)));
    assert_eq!(r(5u8..5).to_inclusive(), Err(Error::EmptyRange));
}

#[test]
fn to_inclusive_over_signed_and_wide_domains() {
    assert_eq!(r::<i8, _>(..).to_inclusive(), Ok(inc(-128..=127)));
    assert_eq!(r(..0i8).to_inclusive(), Ok(inc(-128..=-1)));
    assert_eq!(r::<i16, _>(..).to_inclusive(), Ok(inc(i16::MIN..=i16::MAX)));
    assert_eq!(r::<u16, _>(..).to_inclusive(), Ok(inc(0..=u16::MAX)));
    assert_eq!(r::<i32, _>(..).to_inclusive(), Ok(inc(i32::MIN..=i32::MAX)));
    assert_eq!(r::<u32, _>(..).to_inclusive(), Ok(inc(0..=u32::MAX)));
    assert_eq!(r::<i64, _>(..).to_inclusive(), Ok(inc(i64::MIN..=i64::MAX)));
    assert_eq!(r::<u64, _>(..).to_inclusive(), Ok(inc(0..=u64::MAX)));
    assert_eq!(r::<i128, _>(..).to_inclusive(), Ok(inc(i128::MIN..=i128::MAX)));
    assert_eq!(r::<u128, _>(..).to_inclusive(), Ok(inc(0..=u128::MAX)));
    assert_eq!(r::<isize, _>(..).to_inclusive(), Ok(inc(isize::MIN..=isize::MAX)));
    assert_eq!(r::<usize, _>(..).to_inclusive(), Ok(inc(0..=usize::MAX)));
    let open = IntRange::new(Bound::Excluded(i64::MIN), Bound::Excluded(i64::MAX));
    assert_eq!(open.to_inclusive(), Ok(inc(i64::MIN + 1..=i64::MAX - 1)));
}

#[test]
fn contains_subrange_refuses_empty_operands() {
    assert_eq!(r(0u8..10).contains_subrange(&r(4..4)), Err(Error::EmptyRange));
    assert_eq!(r(4u8..4).contains_subrange(&r(0..10)), Err(Error::EmptyRange));
    assert_eq!(r(0u8..10).intersect(&r(4..4)), Err(Error::EmptyRange));
    assert_eq!(r(4u8..4).intersect(&r(0..10)), Err(Error::EmptyRange));
}

#[test]
fn contains_subrange_compares_open_ends_without_stepping_out() {
    let from = |s: u8| IntRange::new(Bound::Excluded(s), Bound::Unbounded);
    // (n.. inside [x..
    assert_eq!(r(5u8..).contains_subrange(&from(4)), Ok(true));
    assert_eq!(r(5u8..).contains_subrange(&from(3)), Ok(false));
    assert_eq!(r(255u8..).contains_subrange(&from(254)), Ok(true));
    assert_eq!(r(255u8..).contains_subrange(&from(253)), Ok(false));
    // (n.. inside (x..
    assert_eq!(from(4).contains_subrange(&from(4)), Ok(true));
    assert_eq!(from(5).contains_subrange(&from(4)), Ok(false));
    // .. inside [x.. and (x..
    assert_eq!(r(0u8..).contains_subrange(&r(..)), Ok(true));
    assert_eq!(r(1u8..).contains_subrange(&r(..)), Ok(false));
    assert_eq!(from(0).contains_subrange(&r(..)), Ok(false));
    // ..n inside ..=x
    assert_eq!(r(..=4u8).contains_subrange(&r(..5)), Ok(true));
    assert_eq!(r(..=4u8).contains_subrange(&r(..6)), Ok(false));
    assert_eq!(r(..=0u8).contains_subrange(&r(..1)), Ok(true));
    // .. inside ..=x and ..x
    assert_eq!(r(..=255u8).contains_subrange(&r(..)), Ok(true));
    assert_eq!(r(..=254u8).contains_subrange(&r(..)), Ok(false));
    assert_eq!(r(..255u8).contains_subrange(&r(..)), Ok(false));
}

#[test]
fn equal_is_reflexive_and_means_mutual_containment() {
    let all: [IntRange<u8>; 6] = [r(0..10), r(0..=9), r(..10), r(3..), r(..), r(1..=9)];
    for a in all.iter() {
        assert!(a.equal(a));
        for b in all.iter() {
            let both = a.contains_subrange(b) == Ok(true) && b.contains_subrange(a) == Ok(true);
            assert_eq!(a.equal(b), both);
            assert_eq!(a.equal(b), a.to_inclusive() == b.to_inclusive());
        }
    }
    assert_eq!(r(4u8..4).equal(&r(4..4)), false);
    assert_eq!(r(4u8..4).equal(&r(0..10)), false);
}

#[test]
fn substract_splits_self_into_three_parts() {
    let whole: IntRange<u8> = r(10..=20);
    for lo in 10u8..=20 {
        for hi in lo..=20 {
            let (below, above) = whole.substract(&r(lo..=hi)).unwrap();
            let mut seen = 0u32;
            for x in 0u8..=255 {
                let in_below = below.map_or(false, |p| p.start <= x && x <= p.end);
                let in_other = lo <= x && x <= hi;
                let in_above = above.map_or(false, |p| p.start <= x && x <= p.end);
                let count = in_below as u32 + in_other as u32 + in_above as u32;
                assert_eq!(count == 1, whole.contains(x));
                assert!(count <= 1);
                seen += count;
            }
            assert_eq!(seen, 11);
            assert_eq!(below, if lo > 10 { Some(inc(10..=lo - 1)) } else { None });
            assert_eq!(above, if hi < 20 { Some(inc(hi + 1..=20)) } else { None });
        }
    }
}

#[test]
fn substract_at_the_ends_of_the_domain() {
    assert_eq!(r::<u8, _>(..).substract(&r(..)), Ok((None, None)));
    assert_eq!(r::<u8, _>(..).substract(&r(255..)), Ok((Some(inc(0..=254)), None)));
    assert_eq!(r::<u8, _>(..).substract(&r(..=0)), Ok((None, Some(inc(1..=255)))));
    assert_eq!(r::<u8, _>(..).substract(&r(255..=255)), Ok((Some(inc(0..=254)), None)));
    assert_eq!(r::<u8, _>(..).substract(&r(0..=0)), Ok((None, Some(inc(1..=255)))));
    let inner = IntRange::new(Bound::Excluded(0u8), Bound::Excluded(255));
    assert_eq!(r::<u8, _>(..).substract(&inner), Ok((Some(inc(0..=0)), Some(inc(255..=255)))));
    let outer = IntRange::new(Bound::Excluded(0u8), Bound::Excluded(255));
    assert_eq!(outer.substract(&r(1..=254)), Ok((None, None)));
    assert_eq!(outer.substract(&r(2..254)), Ok((Some(inc(1..=1)), Some(inc(254..=254)))));
    assert_eq!(
        r::<i8, _>(..).substract(&r(-1..=1)),
        Ok((Some(inc(-128..=-2)), Some(inc(2..=127))))
    );
}

#[test]
fn substract_refuses_what_is_not_inside() {
    let e = Err(Error::SelfDoNotContainOtherRange);
    assert_eq!(r(20u8..40).substract(&r(30..50)), e);
    assert_eq!(r(20u8..40).substract(&r(10..30)), e);
    assert_eq!(r(20u8..40).substract(&r(50..60)), e);
    assert_eq!(r(20u8..40).substract(&r(10..60)), e);
    assert_eq!(r(20u8..=20).substract(&r(21..=21)), e);
    assert_eq!(r(..=254u8).substract(&r(..)), e);
}

#[test]
fn substract_refuses_empty_operands_as_empty() {
    let e = Err(Error::EmptyRange);
    assert_eq!(r(20u8..40).substract(&r(30..30)), e);
    assert_eq!(r(30u8..30).substract(&r(30..30)), e);
    assert_eq!(r(30u8..30).substract(&r(0..10)), e);
    assert_eq!(r(0u8..10).substract(&r(4..4)), e);
    // an empty range is refused as empty even where its ends lie outside
    assert_eq!(r(20u8..40).substract(&r(90..80)), e);
    assert_eq!(r(..0u8).substract(&r(..)), e);
    let above_all = IntRange::new(Bound::Excluded(255u8), Bound::Unbounded);
    assert_eq!(r::<u8, _>(..).substract(&above_all), e);
}

#[test]
fn intersect_means_a_shared_point() {
    let all: [IntRange<u8>; 7] =
        [r(0..50), r(0..=50), r(50..100), r(10..20), r(..), r(255..), r(..=0)];
    for a in all.iter() {
        for b in all.iter() {
            let shared = (0u8..=255).any(|x| a.contains(x) && b.contains(x));
            assert_eq!(a.intersect(b), Ok(shared));
        }
    }
}

#[test]
fn error_message_names_the_error() {
    assert_eq!(Error::EmptyRange.message(), "empty range");
    assert_eq!(
        Error::SelfDoNotContainOtherRange.message(),
        "self do not contain the other range"
    );
}

#[test]
fn inclusive_to_range_includes_both_ends() {
    let iv = inc(3u8..=7);
    assert_eq!(iv.to_range(), r(3..=7));
    assert_eq!(iv.to_range().to_inclusive(), Ok(iv));
}
