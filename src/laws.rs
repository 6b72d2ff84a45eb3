use vstd::prelude::*;
use std::cmp::Ordering;

use crate::interval::{Interval, interval_eq, option_seq, over_ok, spec_over};
use crate::interval_limit::{IntervalLimit, lemma_limit_order, limit_cmp};
use crate::limit_value::{LimitValue, lemma_value_order, same_value, value_cmp};
use crate::order::{lawful, lemma_order, lt};

verus! {

/// A closed interval includes both of its ends; an open one includes neither.
pub proof fn lemma_includes_endpoints<T: Ord>(a: T, b: T)
    requires
        lawful::<T>(),
        !lt(b, a),
    ensures
        spec_over(LimitValue::Limit(a), true, LimitValue::Limit(b), true).contains(a),
        spec_over(LimitValue::Limit(a), true, LimitValue::Limit(b), true).contains(b),
        !spec_over(LimitValue::Limit(a), false, LimitValue::Limit(b), false).contains(a),
        !spec_over(LimitValue::Limit(a), false, LimitValue::Limit(b), false).contains(b),
{
    lemma_order::<T>();
    lemma_value_order::<T>();
    let la = LimitValue::Limit(a);
    let lb = LimitValue::Limit(b);
    assert(value_cmp(la, lb) != Ordering::Greater);
    assert(value_cmp(lb, la) != Ordering::Less);
}

/// No interval has its lower bound above its upper bound: `over`, `closed`
/// and `open` do not accept such bounds, whatever the inclusions.
pub proof fn lemma_reversed_bounds_refused<T: Ord>(a: T, b: T, a_included: bool, b_included: bool)
    requires
        lawful::<T>(),
        lt(b, a),
    ensures
        !over_ok(LimitValue::Limit(a), a_included, LimitValue::Limit(b), b_included),
{
    lemma_order::<T>();
}

/// An interval that covers another holds every point of it.
pub proof fn lemma_covers_points<T: Ord>(s: Interval<T>, o: Interval<T>, x: T)
    requires
        lawful::<T>(),
        s.wf(),
        o.wf(),
        s.spec_covers(o),
        o.contains(x),
    ensures
        s.contains(x),
{
    lemma_order::<T>();
    lemma_value_order::<T>();
    lemma_limit_order::<T>();
    let v = LimitValue::Limit(x);
    if s.lower.value is Limit {
        assert(o.lower.value is Limit);
        assert(value_cmp(s.lower.value, o.lower.value) != Ordering::Greater);
        assert(value_cmp(o.lower.value, v) != Ordering::Greater);
    }
    if s.upper.value is Limit {
        assert(o.upper.value is Limit);
        assert(value_cmp(o.upper.value, s.upper.value) != Ordering::Greater);
        assert(value_cmp(v, o.upper.value) != Ordering::Greater);
    }
}

/// An interval intersected with itself is itself.
pub proof fn lemma_intersect_self<T: Ord>(i: Interval<T>)
    requires
        lawful::<T>(),
        i.wf(),
    ensures
        i.spec_intersect(i) == i,
        interval_eq(i.spec_intersect(i), i),
{
    lemma_order::<T>();
    lemma_value_order::<T>();
    lemma_limit_order::<T>();
    let g = i.spec_greater_of_lower_limits(i);
    let l = i.spec_lesser_of_upper_limits(i);
    assert(g == i.lower.value);
    assert(l == i.upper.value);
    if g is Limit && l is Limit {
        assert(value_cmp(g, l) != Ordering::Greater);
    }
    if g is Limit {
        assert(i.spec_includes(g) == i.lower.closed);
    }
    if l is Limit {
        assert(i.spec_includes(l) == i.upper.closed);
    }
    assert(IntervalLimit::spec_new(i.lower.closed, true, i.lower.value) == i.lower);
    assert(IntervalLimit::spec_new(i.upper.closed, false, i.upper.value) == i.upper);
}

/// No interval is both empty and a single element.
pub proof fn lemma_empty_or_single<T: Ord>(i: Interval<T>)
    ensures
        !(i.spec_is_empty() && i.spec_is_single_element()),
{
}

/// Whether a value lies in an interval depends only on its place in the order.
proof fn lemma_includes_same<T: Ord>(i: Interval<T>, v: LimitValue<T>, w: LimitValue<T>)
    requires
        lawful::<T>(),
        same_value(v, w),
    ensures
        i.spec_includes(v) == i.spec_includes(w),
{
    lemma_value_order::<T>();
    assert(same_value(w, v));
    assert(value_cmp(i.upper.value, v) == Ordering::Less ==> value_cmp(i.upper.value, w) == Ordering::Less);
    assert(value_cmp(i.upper.value, w) == Ordering::Less ==> value_cmp(i.upper.value, v) == Ordering::Less);
    assert(same_value(i.upper.value, v) ==> same_value(i.upper.value, w));
    assert(same_value(i.upper.value, w) ==> same_value(i.upper.value, v));
    assert(value_cmp(v, i.lower.value) == Ordering::Less <==> value_cmp(i.lower.value, v) == Ordering::Greater);
    assert(value_cmp(w, i.lower.value) == Ordering::Less <==> value_cmp(i.lower.value, w) == Ordering::Greater);
    assert(value_cmp(v, i.lower.value) == Ordering::Less ==> value_cmp(w, i.lower.value) == Ordering::Less);
    assert(value_cmp(w, i.lower.value) == Ordering::Less ==> value_cmp(v, i.lower.value) == Ordering::Less);
    assert(same_value(i.lower.value, v) ==> same_value(i.lower.value, w));
    assert(same_value(i.lower.value, w) ==> same_value(i.lower.value, v));
}

/// Intervals built by `over` from values ordered alike, with the same
/// inclusions, are equal.
proof fn lemma_over_same<T: Ord>(
    g1: LimitValue<T>,
    g2: LimitValue<T>,
    c1: bool,
    l1: LimitValue<T>,
    l2: LimitValue<T>,
    c2: bool,
)
    requires
        lawful::<T>(),
        same_value(g1, g2),
        same_value(l1, l2),
    ensures
        interval_eq(spec_over(g1, c1, l1, c2), spec_over(g2, c1, l2, c2)),
{
    lemma_value_order::<T>();
    lemma_limit_order::<T>();
    let a = spec_over(g1, c1, l1, c2);
    let b = spec_over(g2, c1, l2, c2);
    assert(same_value(g2, g1));
    assert(same_value(l2, l1));
    assert(same_value(l1, g1) ==> same_value(l2, g2));
    assert(same_value(l2, g2) ==> same_value(l1, g1));
    assert(a.lower.closed == b.lower.closed);
    assert(a.upper.closed == b.upper.closed);
    assert(same_value(a.lower.value, b.lower.value));
    assert(same_value(a.upper.value, b.upper.value));
    assert(limit_cmp(a.lower, b.lower) == Ordering::Equal);
    assert(limit_cmp(a.upper, b.upper) == Ordering::Equal);
    assert(a.spec_is_empty() == b.spec_is_empty());
    assert(a.spec_is_single_element() == b.spec_is_single_element());
}

/// Intersection does not depend on the order of its operands, and neither
/// does the test for overlap.
pub proof fn lemma_intersect_commutes<T: Ord>(i: Interval<T>, j: Interval<T>)
    requires
        lawful::<T>(),
        i.wf(),
        j.wf(),
    ensures
        interval_eq(i.spec_intersect(j), j.spec_intersect(i)),
        i.spec_intersects(j) == j.spec_intersects(i),
{
    lemma_order::<T>();
    lemma_value_order::<T>();
    lemma_limit_order::<T>();
    let g1 = i.spec_greater_of_lower_limits(j);
    let g2 = j.spec_greater_of_lower_limits(i);
    let l1 = i.spec_lesser_of_upper_limits(j);
    let l2 = j.spec_lesser_of_upper_limits(i);
    assert(same_value(g1, g2));
    assert(same_value(l1, l2));
    assert(same_value(g2, g1));
    assert(same_value(l2, l1));
    lemma_includes_same(i, g1, g2);
    lemma_includes_same(j, g1, g2);
    lemma_includes_same(i, l1, l2);
    lemma_includes_same(j, l1, l2);
    assert(value_cmp(g1, l1) == value_cmp(g2, l2)) by {
        assert(value_cmp(g1, l1) == Ordering::Less ==> value_cmp(g2, l2) == Ordering::Less);
        assert(value_cmp(g2, l2) == Ordering::Less ==> value_cmp(g1, l1) == Ordering::Less);
        assert(value_cmp(l1, g1) == Ordering::Less ==> value_cmp(l2, g2) == Ordering::Less);
        assert(value_cmp(l2, g2) == Ordering::Less ==> value_cmp(l1, g1) == Ordering::Less);
    }
    if !(g1 is Limit && l1 is Limit && value_cmp(g1, l1) == Ordering::Greater) {
        lemma_over_same(
            g1,
            g2,
            i.spec_includes(g1) && j.spec_includes(g1),
            l1,
            l2,
            i.spec_includes(l1) && j.spec_includes(l1),
        );
    }
}

/// Two intervals that share a point overlap.
pub proof fn lemma_common_point<T: Ord>(i: Interval<T>, j: Interval<T>, x: T)
    requires
        lawful::<T>(),
        i.wf(),
        j.wf(),
        i.contains(x),
        j.contains(x),
    ensures
        i.spec_intersects(j),
{
    lemma_value_order::<T>();
    let v = LimitValue::Limit(x);
    let g = i.spec_greater_of_lower_limits(j);
    let l = i.spec_lesser_of_upper_limits(j);
    if !(i.upper.value is Limitless && j.upper.value is Limitless) && !(i.lower.value is Limitless
        && j.lower.value is Limitless) {
        assert(value_cmp(g, v) != Ordering::Greater);
        assert(value_cmp(v, l) != Ordering::Greater);
        assert(value_cmp(g, l) != Ordering::Greater);
        if value_cmp(g, l) == Ordering::Equal {
            assert(same_value(g, v));
            assert(same_value(l, v));
            lemma_includes_same(i, g, v);
            lemma_includes_same(j, g, v);
            lemma_includes_same(i, l, v);
            lemma_includes_same(j, l, v);
        }
    }
}

/// The part below `s` holds exactly the points of `o` below `s`'s lower limit.
proof fn lemma_left_piece<T: Ord>(s: Interval<T>, o: Interval<T>, x: T)
    requires
        lawful::<T>(),
        s.wf(),
        o.wf(),
        s.spec_intersects(o),
    ensures
        match s.spec_left_complement(o) {
            Some(p) => p.contains(x) <==> (o.contains(x) && s.spec_is_above(LimitValue::Limit(x))),
            None => !(o.contains(x) && s.spec_is_above(LimitValue::Limit(x))),
        },
{
    lemma_order::<T>();
    lemma_value_order::<T>();
    lemma_limit_order::<T>();
    let v = LimitValue::Limit(x);
    let g = s.spec_greater_of_lower_limits(o);
    let l = s.spec_lesser_of_upper_limits(o);
    match s.spec_left_complement(o) {
        Some(p) => {
            assert(s.lower.value is Limit);
            assert(p.lower == o.lower);
            assert(p.upper.value == s.lower.value);
            assert(p.upper.closed == !s.lower.closed);
            if p.contains(x) {
                assert(s.spec_is_above(v));
                if o.upper.value is Limit {
                    assert(value_cmp(v, s.lower.value) != Ordering::Greater);
                    assert(value_cmp(s.lower.value, g) != Ordering::Greater);
                    if !(o.upper.value is Limitless && s.upper.value is Limitless) {
                        assert(value_cmp(l, o.upper.value) != Ordering::Greater);
                    }
                    if same_value(v, s.lower.value) && same_value(s.lower.value, g) {
                        lemma_includes_same(s, g, s.lower.value);
                        assert(!s.spec_includes(s.lower.value));
                    }
                    assert(value_cmp(v, o.upper.value) != Ordering::Greater);
                    if same_value(v, o.upper.value) {
                        assert(same_value(g, l));
                        lemma_includes_same(o, l, v);
                    }
                }
                assert(o.contains(x));
            }
        },
        None => {
            if o.contains(x) && s.spec_is_above(v) {
                assert(limit_cmp(s.lower, o.lower) == Ordering::Greater);
            }
        },
    }
}

/// The part above `s` holds exactly the points of `o` above `s`'s upper limit.
proof fn lemma_right_piece<T: Ord>(s: Interval<T>, o: Interval<T>, x: T)
    requires
        lawful::<T>(),
        s.wf(),
        o.wf(),
        s.spec_intersects(o),
    ensures
        match s.spec_right_complement(o) {
            Some(p) => p.contains(x) <==> (o.contains(x) && s.spec_is_below(LimitValue::Limit(x))),
            None => !(o.contains(x) && s.spec_is_below(LimitValue::Limit(x))),
        },
{
    lemma_order::<T>();
    lemma_value_order::<T>();
    lemma_limit_order::<T>();
    let v = LimitValue::Limit(x);
    let g = s.spec_greater_of_lower_limits(o);
    let l = s.spec_lesser_of_upper_limits(o);
    match s.spec_right_complement(o) {
        Some(p) => {
            assert(s.upper.value is Limit);
            assert(p.upper == o.upper);
            assert(p.lower.value == s.upper.value);
            assert(p.lower.closed == !s.upper.closed);
            if p.contains(x) {
                assert(s.spec_is_below(v));
                if o.lower.value is Limit {
                    assert(value_cmp(s.upper.value, v) != Ordering::Greater);
                    assert(value_cmp(l, s.upper.value) != Ordering::Greater);
                    if !(o.lower.value is Limitless && s.lower.value is Limitless) {
                        assert(value_cmp(o.lower.value, g) != Ordering::Greater);
                    }
                    if same_value(v, s.upper.value) && same_value(s.upper.value, l) {
                        lemma_includes_same(s, l, s.upper.value);
                        assert(!s.spec_includes(s.upper.value));
                    }
                    assert(value_cmp(o.lower.value, v) != Ordering::Greater);
                    if same_value(v, o.lower.value) {
                        assert(same_value(g, l));
                        lemma_includes_same(o, g, v);
                    }
                }
                assert(o.contains(x));
            }
        },
        None => {
            if o.contains(x) && s.spec_is_below(v) {
                assert(limit_cmp(o.upper, s.upper) == Ordering::Greater);
            }
        },
    }
}

/// The complement of `s` relative to `o` holds exactly the points of `o`
/// that lie outside `s`.
pub proof fn lemma_complement_points<T: Ord>(s: Interval<T>, o: Interval<T>, x: T)
    requires
        lawful::<T>(),
        s.wf(),
        o.wf(),
    ensures
        (o.contains(x) && !s.contains(x)) <==> exists|k: int|
            0 <= k < s.spec_complement(o).len() && (#[trigger] s.spec_complement(o)[k]).contains(x),
{
    let c = s.spec_complement(o);
    if !s.spec_intersects(o) {
        if s.contains(x) && o.contains(x) {
            lemma_common_point(s, o, x);
        }
        if o.contains(x) && !s.contains(x) {
            assert(c[0].contains(x));
        }
    } else {
        lemma_left_piece(s, o, x);
        lemma_right_piece(s, o, x);
        let left = option_seq(s.spec_left_complement(o));
        let right = option_seq(s.spec_right_complement(o));
        assert(c == left + right);
        if o.contains(x) && !s.contains(x) {
            if s.spec_is_above(LimitValue::Limit(x)) {
                assert(c[0].contains(x));
            } else {
                assert(c[left.len() as int].contains(x));
            }
        }
    }
}

} // verus!
