use std::cmp::Ordering;

use intervals::{to_ordering, Interval, IntervalSeq, LimitValue, Ordered};

fn c5_10c() -> Interval<i32> {
    Interval::closed(LimitValue::Limit(5), LimitValue::Limit(10))
}
fn o10_12c() -> Interval<i32> {
    Interval::over(LimitValue::Limit(10), false, LimitValue::Limit(12), true)
}
fn o11_20c() -> Interval<i32> {
    Interval::over(LimitValue::Limit(11), false, LimitValue::Limit(20), true)
}
fn o12_20o() -> Interval<i32> {
    Interval::open(LimitValue::Limit(12), LimitValue::Limit(20))
}
fn c20_25c() -> Interval<i32> {
    Interval::closed(LimitValue::Limit(20), LimitValue::Limit(25))
}
fn o25_30c() -> Interval<i32> {
    Interval::over(LimitValue::Limit(25), false, LimitValue::Limit(30), true)
}
fn o11_12c() -> Interval<i32> {
    Interval::over(LimitValue::Limit(11), false, LimitValue::Limit(12), true)
}
fn c20_20c() -> Interval<i32> {
    Interval::closed(LimitValue::Limit(20), LimitValue::Limit(20))
}
fn o30_35o() -> Interval<i32> {
    Interval::open(LimitValue::Limit(30), LimitValue::Limit(35))
}
fn _o18() -> Interval<i32> {
    Interval::under(LimitValue::Limit(18))
}
fn empty() -> Interval<i32> {
    Interval::closed(LimitValue::Limit(0), LimitValue::Limit(0))
}
fn all() -> Interval<i32> {
    Interval::open(LimitValue::Limitless, LimitValue::Limitless)
}

#[test]
fn test01_iterate() {
    let mut interval_sequence = IntervalSeq::empty();
    interval_sequence.append(&empty());
    interval_sequence.append(&c5_10c());
    interval_sequence.append(&o10_12c());
    let mut iter = interval_sequence.iter();
    let next = iter.next();
    assert!(next.is_some());
    assert_eq!(next.unwrap(), &empty());
    let next = iter.next();
    assert!(next.is_some());
    assert_eq!(next.unwrap(), &c5_10c());
    let next = iter.next();
    assert!(next.is_some());
    assert_eq!(next.unwrap(), &o10_12c());
    let next = iter.next();
    assert!(next.is_none());
}

#[test]
fn test02_inserted_out_of_order() {
    let mut interval_sequence = IntervalSeq::empty();
    interval_sequence.append(&o10_12c());
    interval_sequence.append(&c5_10c());
    let mut iter = interval_sequence.iter();
    let next = iter.next();
    assert!(next.is_some());
    assert_eq!(next.unwrap(), &c5_10c());
    let next = iter.next();
    assert!(next.is_some());
    assert_eq!(next.unwrap(), &o10_12c());
    let next = iter.next();
    assert!(next.is_none());
}

#[test]
fn test03_overlapping() {
    let mut interval_sequence = IntervalSeq::empty();
    interval_sequence.append(&o10_12c());
    interval_sequence.append(&o11_20c());
    let mut iter = interval_sequence.iter();
    let next = iter.next();
    assert!(next.is_some());
    assert_eq!(next.unwrap(), &o10_12c());
    let next = iter.next();
    assert!(next.is_some());
    assert_eq!(next.unwrap(), &o11_20c());
    let next = iter.next();
    assert!(next.is_none());
}

#[test]
fn test04_intersections() {
    let mut interval_sequence = IntervalSeq::empty();
    interval_sequence.append(&o10_12c());
    interval_sequence.append(&o11_20c());
    interval_sequence.append(&c20_25c());
    let mut interval_sequence = interval_sequence.intersections();
    let mut iter = interval_sequence.iter();
    let next = iter.next();
    assert!(next.is_some());
    assert_eq!(next.unwrap(), &o11_12c());
    let next = iter.next();
    assert!(next.is_some());
    assert_eq!(next.unwrap(), &c20_20c());
    let next = iter.next();
    assert!(next.is_none());
}

#[test]
fn test05_gaps() {
    let mut interval_sequence = IntervalSeq::empty();
    interval_sequence.append(&c5_10c());
    interval_sequence.append(&o10_12c());
    interval_sequence.append(&c20_25c());
    interval_sequence.append(&o30_35o());
    let mut interval_sequence = interval_sequence.gap();
    let mut iter = interval_sequence.iter();
    let next = iter.next();
    assert!(next.is_some());
    assert_eq!(next.unwrap(), &o12_20o());
    let next = iter.next();
    assert!(next.is_some());
    assert_eq!(next.unwrap(), &o25_30c());
    let next = iter.next();
    assert!(next.is_none());
}

#[test]
fn test06_extent() {
    let mut values: Vec<Interval<i32>> = Vec::new();
    values.push(c5_10c().clone());
    values.push(o10_12c().clone());
    values.push(c20_25c().clone());

    let interval_sequence1 = IntervalSeq::new(&values);
    assert_eq!(
        interval_sequence1.extent(),
        Interval::closed(LimitValue::Limit(5), LimitValue::Limit(25))
    );

    values.push(_o18().clone());
    let interval_sequence2 = IntervalSeq::new(&values);
    assert_eq!(
        interval_sequence2.extent(),
        Interval::closed(LimitValue::Limitless, LimitValue::Limit(25))
    );

    values.push(all().clone());
    let interval_sequence3 = IntervalSeq::new(&values);
    assert_eq!(interval_sequence3.extent(), all());
}

#[test]
fn seq_extent_of_one_interval_is_that_interval() {
    let s = IntervalSeq::new(&[o10_12c()]);
    assert_eq!(s.extent(), o10_12c());
}

#[test]
fn seq_accessors() {
    let mut s = IntervalSeq::empty();
    assert!(s.is_empty());
    assert_eq!(s.len(), 0);
    assert!(s.get(0).is_none());
    s.append(&c5_10c());
    s.append(&o10_12c());
    assert!(!s.is_empty());
    assert_eq!(s.len(), 2);
    assert_eq!(s.get(1), Some(&o10_12c()));
    assert!(s.get(2).is_none());
}

#[test]
fn seq_gap_and_intersections_of_short_sequences_are_empty() {
    let s = IntervalSeq::new(&[c5_10c()]);
    assert!(s.gap().is_empty());
    assert!(s.intersections().is_empty());
    let e = IntervalSeq::<i32>::empty();
    assert!(e.gap().is_empty());
}

#[test]
fn seq_sorts_true_empty_interval_first() {
    let open_empty = Interval::open(LimitValue::Limit(40), LimitValue::Limit(40));
    let mut s = IntervalSeq::new(&[c20_25c(), open_empty, c5_10c()]);
    let sorted: Vec<Interval<i32>> = s.iter().cloned().collect();
    assert!(sorted[0].is_empty());
    assert_eq!(sorted[1], c5_10c());
    assert_eq!(sorted[2], c20_25c());
}

#[test]
fn seq_sorts_equal_uppers_by_lower_ascending() {
    let wide = Interval::closed(LimitValue::Limit(1), LimitValue::Limit(10));
    let narrow = c5_10c();
    let mut s = IntervalSeq::new(&[narrow, wide]);
    let sorted: Vec<Interval<i32>> = s.iter().cloned().collect();
    assert_eq!(sorted[0], wide);
    assert_eq!(sorted[1], narrow);
}

#[test]
fn ordered_compare_policies() {
    let a = c5_10c();
    let b = c20_25c();
    let e = Interval::open(LimitValue::Limit(3), LimitValue::Limit(3));
    let ul = Ordered::UpperLower { inverse_lower: false, inverse_upper: false };
    assert_eq!(ul.compare(&a, &b), Ordering::Less);
    assert_eq!(ul.compare(&e, &a), Ordering::Less);
    assert_eq!(ul.compare(&a, &a), Ordering::Equal);
    let ul_rev = Ordered::UpperLower { inverse_lower: false, inverse_upper: true };
    assert_eq!(ul_rev.compare(&a, &b), Ordering::Greater);
    let lu = Ordered::LowerUpper { inverse_lower: false, inverse_upper: false };
    assert_eq!(lu.compare(&e, &a), Ordering::Greater);
    assert_eq!(lu.compare(&a, &b), Ordering::Less);
    let wide = Interval::closed(LimitValue::Limit(5), LimitValue::Limit(30));
    assert_eq!(lu.compare(&a, &wide), Ordering::Less);
    let lu_rev = Ordered::LowerUpper { inverse_lower: true, inverse_upper: true };
    assert_eq!(lu_rev.compare(&a, &wide), Ordering::Greater);
    assert_eq!(lu_rev.compare(&a, &b), Ordering::Greater);
}

#[test]
fn to_ordering_values() {
    assert_eq!(to_ordering(-1), Ordering::Less);
    assert_eq!(to_ordering(0), Ordering::Equal);
    assert_eq!(to_ordering(1), Ordering::Greater);
}
