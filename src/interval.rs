use vstd::prelude::*;
use vstd::std_specs::cmp::OrdSpec;
use vstd::string::StringExecFns;
use std::cmp::Ordering;
use std::fmt::Display;

use crate::interval_limit::{IntervalLimit, limit_le, limit_eqv, lemma_limit_order};
use crate::limit_value::{LimitValue, value_cmp, same_value, lemma_value_order, value_text};
use crate::order::{lawful, lemma_order};

verus! {

/// A range of values of `T` between a lower and an upper limit.
#[derive(Debug, Clone, Copy, Hash)]
pub struct Interval<T> {
    pub lower: IntervalLimit<T>,
    pub upper: IntervalLimit<T>,
}

/// The interval that `new` builds from two limits: a point whose two ends
/// disagree on being open is made closed at both ends.
pub open spec fn spec_new<T: Ord>(lower: IntervalLimit<T>, upper: IntervalLimit<T>) -> Interval<T> {
    if upper.value is Limit && lower.value is Limit && same_value(upper.value, lower.value)
        && lower.closed != upper.closed {
        Interval {
            lower: if !lower.closed { IntervalLimit::spec_new(true, true, lower.value) } else { lower },
            upper: if !upper.closed { IntervalLimit::spec_new(true, false, upper.value) } else { upper },
        }
    } else {
        Interval { lower, upper }
    }
}

/// The interval that `over` builds.
pub open spec fn spec_over<T: Ord>(
    lower: LimitValue<T>,
    lower_included: bool,
    upper: LimitValue<T>,
    upper_included: bool,
) -> Interval<T> {
    spec_new(
        IntervalLimit::spec_new(lower_included, true, lower),
        IntervalLimit::spec_new(upper_included, false, upper),
    )
}

/// What `over` asks of its arguments: the lower limit does not come after the upper one.
pub open spec fn over_ok<T: Ord>(
    lower: LimitValue<T>,
    lower_included: bool,
    upper: LimitValue<T>,
    upper_included: bool,
) -> bool {
    limit_le(
        IntervalLimit::spec_new(lower_included, true, lower),
        IntervalLimit::spec_new(upper_included, false, upper),
    )
}

/// The interval open at both ends at `v`; empty when `v` is finite.
pub open spec fn spec_empty_at<T: Ord>(v: LimitValue<T>) -> Interval<T> {
    spec_over(v, false, v, false)
}

/// Both values are finite and the first comes after the second.
pub open spec fn crosses<T: Ord>(g: LimitValue<T>, l: LimitValue<T>) -> bool {
    g is Limit && l is Limit && value_cmp(g, l) == Ordering::Greater
}

/// The one-element or empty sequence of an option.
pub open spec fn option_seq<A>(o: Option<A>) -> Seq<A> {
    match o {
        Some(a) => seq![a],
        None => Seq::empty(),
    }
}

/// Equality of intervals: all empty intervals are equal, single-element
/// intervals are equal when they hold the same value, and other intervals
/// when their limits are.
pub open spec fn interval_eq<T: Ord>(a: Interval<T>, b: Interval<T>) -> bool {
    if a.spec_is_empty() && b.spec_is_empty() {
        true
    } else if a.spec_is_empty() != b.spec_is_empty() {
        false
    } else if a.spec_is_single_element() && b.spec_is_single_element() {
        same_value(a.lower.value, b.lower.value)
    } else if a.spec_is_single_element() != b.spec_is_single_element() {
        false
    } else {
        limit_eqv(a.upper, b.upper) && limit_eqv(a.lower, b.lower)
    }
}

impl<T: Ord> Interval<T> {
    /// Both limits are well formed and on their own side, the lower one does
    /// not come after the upper one, and a point is not half open.
    pub open spec fn wf(&self) -> bool {
        &&& self.lower.wf()
        &&& self.upper.wf()
        &&& self.lower.lower
        &&& !self.upper.lower
        &&& limit_le(self.lower, self.upper)
        &&& !(self.lower.value is Limit && self.upper.value is Limit && same_value(
            self.upper.value,
            self.lower.value,
        ) && self.lower.closed != self.upper.closed)
    }

    /// Unbounded on both sides.
    pub open spec fn spec_is_unbounded(&self) -> bool {
        self.lower.value is Limitless && self.upper.value is Limitless
    }

    pub open spec fn spec_has_lower_limit(&self) -> bool {
        self.lower.value is Limit
    }

    pub open spec fn spec_has_upper_limit(&self) -> bool {
        self.upper.value is Limit
    }

    /// `value` lies beyond the upper limit.
    pub open spec fn spec_is_below(&self, value: LimitValue<T>) -> bool {
        self.spec_has_upper_limit() && (value_cmp(self.upper.value, value) == Ordering::Less || (
        same_value(self.upper.value, value) && !self.upper.closed))
    }

    /// `value` lies beyond the lower limit.
    pub open spec fn spec_is_above(&self, value: LimitValue<T>) -> bool {
        self.spec_has_lower_limit() && (value_cmp(self.lower.value, value) == Ordering::Greater || (
        same_value(self.lower.value, value) && !self.lower.closed))
    }

    pub open spec fn spec_includes(&self, value: LimitValue<T>) -> bool {
        !self.spec_is_below(value) && !self.spec_is_above(value)
    }

    /// The point `x` of `T` lies in this interval.
    pub open spec fn contains(&self, x: T) -> bool {
        self.spec_includes(LimitValue::Limit(x))
    }

    pub open spec fn spec_is_open(&self) -> bool {
        !self.lower.closed && !self.upper.closed
    }

    pub open spec fn spec_is_closed(&self) -> bool {
        self.lower.closed && self.upper.closed
    }

    /// Open with both limits at one value; the interval unbounded on both
    /// sides is not empty.
    pub open spec fn spec_is_empty(&self) -> bool {
        if self.lower.value is Limitless && self.upper.value is Limitless {
            false
        } else {
            self.spec_is_open() && same_value(self.upper.value, self.lower.value)
        }
    }

    pub open spec fn spec_is_single_element(&self) -> bool {
        self.spec_has_upper_limit() && self.spec_has_lower_limit() && same_value(
            self.upper.value,
            self.lower.value,
        ) && !self.spec_is_empty()
    }

    /// The common part of the two intervals: from the greater lower limit to
    /// the lesser upper limit, each end included when both intervals include
    /// it; an empty interval when those limits cross.
    pub open spec fn spec_intersect(&self, other: Interval<T>) -> Interval<T> {
        let g = self.spec_greater_of_lower_limits(other);
        let l = self.spec_lesser_of_upper_limits(other);
        if crosses(g, l) {
            spec_empty_at(g)
        } else {
            spec_over(
                g,
                self.spec_includes(g) && other.spec_includes(g),
                l,
                self.spec_includes(l) && other.spec_includes(l),
            )
        }
    }

    /// The two intervals overlap: both unbounded on one side, or the greater
    /// lower limit comes before the lesser upper limit, or both sit at one
    /// value that both intervals include.
    pub open spec fn spec_intersects(&self, other: Interval<T>) -> bool {
        let g = self.spec_greater_of_lower_limits(other);
        let l = self.spec_lesser_of_upper_limits(other);
        if self.upper.value is Limitless && other.upper.value is Limitless {
            true
        } else if self.lower.value is Limitless && other.lower.value is Limitless {
            true
        } else if value_cmp(g, l) == Ordering::Less {
            true
        } else if value_cmp(g, l) == Ordering::Greater {
            false
        } else {
            self.spec_includes(g) && other.spec_includes(g) && self.spec_includes(l)
                && other.spec_includes(l)
        }
    }

    /// What lies between the two intervals: an empty interval when they
    /// overlap, else from the lesser upper limit to the greater lower limit,
    /// each end included when neither interval includes it.
    pub open spec fn spec_gap(&self, other: Interval<T>) -> Interval<T> {
        let g = self.spec_greater_of_lower_limits(other);
        let l = self.spec_lesser_of_upper_limits(other);
        if self.spec_intersects(other) {
            if g is Limit {
                spec_empty_at(g)
            } else {
                spec_empty_at(l)
            }
        } else {
            spec_over(
                l,
                !(self.spec_includes(l) || other.spec_includes(l)),
                g,
                !(self.spec_includes(g) || other.spec_includes(g)),
            )
        }
    }

    /// This interval's lower limit does not come after `other`'s, and its
    /// upper limit does not come before `other`'s.
    pub open spec fn spec_covers(&self, other: Interval<T>) -> bool {
        limit_le(self.lower, other.lower) && limit_le(other.upper, self.upper)
    }

    /// The part of `other` below this interval's lower limit, if any.
    pub open spec fn spec_left_complement(&self, other: Interval<T>) -> Option<Interval<T>> {
        if limit_le(self.lower, other.lower) {
            None
        } else {
            Some(spec_over(other.lower.value, other.lower.closed, self.lower.value, !self.lower.closed))
        }
    }

    /// The part of `other` above this interval's upper limit, if any.
    pub open spec fn spec_right_complement(&self, other: Interval<T>) -> Option<Interval<T>> {
        if limit_le(other.upper, self.upper) {
            None
        } else {
            Some(spec_over(self.upper.value, !self.upper.closed, other.upper.value, other.upper.closed))
        }
    }

    /// The parts of `other` outside this interval: `other` itself when the
    /// two do not overlap, else the part below and the part above that exist.
    pub open spec fn spec_complement(&self, other: Interval<T>) -> Seq<Interval<T>> {
        if !self.spec_intersects(other) {
            seq![other]
        } else {
            option_seq(self.spec_left_complement(other)) + option_seq(self.spec_right_complement(other))
        }
    }

    /// The greater of the two lower limit values, `Limitless` counting as the least.
    pub open spec fn spec_greater_of_lower_limits(&self, other: Interval<T>) -> LimitValue<T> {
        if self.lower.value is Limitless {
            other.lower.value
        } else if other.lower.value is Limitless {
            self.lower.value
        } else if value_cmp(self.lower.value, other.lower.value) != Ordering::Less {
            self.lower.value
        } else {
            other.lower.value
        }
    }

    /// The lesser of the two upper limit values, `Limitless` counting as the greatest.
    pub open spec fn spec_lesser_of_upper_limits(&self, other: Interval<T>) -> LimitValue<T> {
        if self.upper.value is Limitless {
            other.upper.value
        } else if other.upper.value is Limitless {
            self.upper.value
        } else if value_cmp(self.upper.value, other.upper.value) != Ordering::Greater {
            self.upper.value
        } else {
            other.upper.value
        }
    }
}

impl<T: Ord + Copy> Interval<T> {
    /// Builds an interval from a lower and an upper limit; a point whose
    /// two ends disagree on being open is made closed.
    pub fn new(lower: IntervalLimit<T>, upper: IntervalLimit<T>) -> (r: Interval<T>)
        requires
            lawful::<T>(),
            lower.wf(),
            upper.wf(),
            lower.lower,
            !upper.lower,
            limit_le(lower, upper),
        ensures
            r == spec_new(lower, upper),
            r.wf(),
    {
        proof {
            lemma_order::<T>();
            lemma_value_order::<T>();
            lemma_limit_order::<T>();
        }
        let mut l = lower;
        let mut u = upper;
        if !upper.is_infinity() && !lower.is_infinity() && upper.value.same_as(&lower.value)
            && (lower.is_open() ^ upper.is_open()) {
            if lower.is_open() {
                l = IntervalLimit::lower(true, lower.value);
            }
            if upper.is_open() {
                u = IntervalLimit::upper(true, upper.value);
            }
        }
        Interval { lower: l, upper: u }
    }

    /// Builds an interval from two bound values, each included or not.
    pub fn over(
        lower: LimitValue<T>,
        lower_included: bool,
        upper: LimitValue<T>,
        upper_included: bool,
    ) -> (r: Self)
        requires
            lawful::<T>(),
            over_ok(lower, lower_included, upper, upper_included),
        ensures
            r == spec_over(lower, lower_included, upper, upper_included),
            r.wf(),
    {
        Self::new(
            IntervalLimit::lower(lower_included, lower),
            IntervalLimit::upper(upper_included, upper),
        )
    }

    /// `[lower, ∞)`.
    pub fn and_more(lower: LimitValue<T>) -> (r: Self)
        requires
            lawful::<T>(),
        ensures
            r == spec_over(lower, true, LimitValue::Limitless, true),
            r.wf(),
    {
        Self::closed(lower, LimitValue::Limitless)
    }

    /// `[lower, upper]`.
    pub fn closed(lower: LimitValue<T>, upper: LimitValue<T>) -> (r: Self)
        requires
            lawful::<T>(),
            over_ok(lower, true, upper, true),
        ensures
            r == spec_over(lower, true, upper, true),
            r.wf(),
    {
        Self::over(lower, true, upper, true)
    }

    /// `(lower, ∞)`.
    pub fn more_than(lower: LimitValue<T>) -> (r: Self)
        requires
            lawful::<T>(),
        ensures
            r == spec_over(lower, false, LimitValue::Limitless, false),
            r.wf(),
    {
        Self::open(lower, LimitValue::Limitless)
    }

    /// `(lower, upper)`.
    pub fn open(lower: LimitValue<T>, upper: LimitValue<T>) -> (r: Self)
        requires
            lawful::<T>(),
            over_ok(lower, false, upper, false),
        ensures
            r == spec_over(lower, false, upper, false),
            r.wf(),
    {
        Self::over(lower, false, upper, false)
    }

    /// `[element, element]`.
    pub fn single_element(element: LimitValue<T>) -> (r: Self)
        requires
            lawful::<T>(),
        ensures
            r == spec_over(element, true, element, true),
            r.wf(),
    {
        proof {
            lemma_value_order::<T>();
        }
        Self::closed(element, element)
    }

    /// `(-∞, upper)`.
    pub fn under(upper: LimitValue<T>) -> (r: Self)
        requires
            lawful::<T>(),
        ensures
            r == spec_over(LimitValue::Limitless, false, upper, false),
            r.wf(),
    {
        Self::open(LimitValue::Limitless, upper)
    }

    /// `(-∞, upper]`.
    pub fn up_to(upper: LimitValue<T>) -> (r: Self)
        requires
            lawful::<T>(),
        ensures
            r == spec_over(LimitValue::Limitless, true, upper, true),
            r.wf(),
    {
        Self::closed(LimitValue::Limitless, upper)
    }
    pub fn as_upper_limit(&self) -> (r: &LimitValue<T>)
        ensures
            *r == self.upper.value,
    {
        self.upper.as_value()
    }

    pub fn as_lower_limit(&self) -> (r: &LimitValue<T>)
        ensures
            *r == self.lower.value,
    {
        self.lower.as_value()
    }

    /// Whether the upper limit is finite.
    pub fn has_upper_limit(&self) -> (r: bool)
        ensures
            r == self.spec_has_upper_limit(),
    {
        self.upper.value.is_limit()
    }

    /// Whether the lower limit is finite.
    pub fn has_lower_limit(&self) -> (r: bool)
        ensures
            r == self.spec_has_lower_limit(),
    {
        self.lower.value.is_limit()
    }

    /// Whether the upper limit is closed.
    pub fn includes_upper_limit(&self) -> (r: bool)
        ensures
            r == self.upper.closed,
    {
        self.upper.is_closed()
    }

    /// Whether the lower limit is closed.
    pub fn includes_lower_limit(&self) -> (r: bool)
        ensures
            r == self.lower.closed,
    {
        self.lower.is_closed()
    }

    /// Whether `value` lies beyond the upper limit of this interval.
    pub fn is_below(&self, value: &LimitValue<T>) -> (r: bool)
        requires
            lawful::<T>(),
        ensures
            r == self.spec_is_below(*value),
    {
        proof {
            lemma_order::<T>();
        }
        if !self.has_upper_limit() {
            false
        } else {
            let c = self.as_upper_limit().compare_value(value);
            matches!(c, Ordering::Less) || (matches!(c, Ordering::Equal) && !self.includes_upper_limit())
        }
    }

    /// Whether `value` lies beyond the lower limit of this interval.
    pub fn is_above(&self, value: &LimitValue<T>) -> (r: bool)
        requires
            lawful::<T>(),
        ensures
            r == self.spec_is_above(*value),
    {
        proof {
            lemma_order::<T>();
        }
        if !self.has_lower_limit() {
            false
        } else {
            let c = self.as_lower_limit().compare_value(value);
            matches!(c, Ordering::Greater) || (matches!(c, Ordering::Equal) && !self.includes_lower_limit())
        }
    }

    /// Whether `value` lies within this interval: beyond neither limit.
    pub fn includes(&self, value: &LimitValue<T>) -> (r: bool)
        requires
            lawful::<T>(),
        ensures
            r == self.spec_includes(*value),
            r == (!self.spec_is_below(*value) && !self.spec_is_above(*value)),
    {
        !self.is_below(value) && !self.is_above(value)
    }

    /// Whether neither limit is included.
    pub fn is_open(&self) -> (r: bool)
        ensures
            r == self.spec_is_open(),
    {
        !self.includes_lower_limit() && !self.includes_upper_limit()
    }

    /// Whether both limits are included.
    pub fn is_closed(&self) -> (r: bool)
        ensures
            r == self.spec_is_closed(),
    {
        self.includes_upper_limit() && self.includes_lower_limit()
    }

    /// Whether this interval is empty: open, with both limits at one value.
    pub fn is_empty(&self) -> (r: bool)
        requires
            lawful::<T>(),
        ensures
            r == self.spec_is_empty(),
    {
        proof {
            lemma_order::<T>();
        }
        self.check_empty()
    }

    fn check_empty(&self) -> (r: bool)
        ensures
            T::obeys_cmp_spec() ==> r == self.spec_is_empty(),
    {
        match (self.as_upper_limit(), self.as_lower_limit()) {
            (LimitValue::Limitless, LimitValue::Limitless) => false,
            _ => self.is_open() && self.as_upper_limit().same_as(self.as_lower_limit()),
        }
    }

    /// Whether this interval holds exactly one value: both limits finite, at
    /// one value, and the interval not empty.
    pub fn is_single_element(&self) -> (r: bool)
        requires
            lawful::<T>(),
        ensures
            r == self.spec_is_single_element(),
    {
        proof {
            lemma_order::<T>();
        }
        self.check_single_element()
    }

    fn check_single_element(&self) -> (r: bool)
        ensures
            T::obeys_cmp_spec() ==> r == self.spec_is_single_element(),
    {
        if !self.has_upper_limit() {
            false
        } else if !self.has_lower_limit() {
            false
        } else {
            self.as_upper_limit().same_as(self.as_lower_limit()) && !self.check_empty()
        }
    }

    fn equal_both_limitless(&self, me: &LimitValue<T>, your: &LimitValue<T>) -> (r: bool)
        ensures
            r == (*me is Limitless && *your is Limitless),
    {
        matches!((me, your), (LimitValue::Limitless, LimitValue::Limitless))
    }

    /// The greater of the two lower limit values; `Limitless` loses to any value.
    pub fn greater_of_lower_limits<'a>(&'a self, other: &'a Interval<T>) -> (r: &'a LimitValue<T>)
        requires
            lawful::<T>(),
        ensures
            *r == self.spec_greater_of_lower_limits(*other),
    {
        proof {
            lemma_order::<T>();
        }
        if self.as_lower_limit().is_limitless() {
            other.as_lower_limit()
        } else if other.as_lower_limit().is_limitless() {
            self.as_lower_limit()
        } else if !matches!(self.as_lower_limit().compare_value(other.as_lower_limit()), Ordering::Less) {
            self.as_lower_limit()
        } else {
            other.as_lower_limit()
        }
    }

    /// The lesser of the two upper limit values; `Limitless` loses to any value.
    pub fn lesser_of_upper_limits<'a>(&'a self, other: &'a Interval<T>) -> (r: &'a LimitValue<T>)
        requires
            lawful::<T>(),
        ensures
            *r == self.spec_lesser_of_upper_limits(*other),
    {
        proof {
            lemma_order::<T>();
        }
        if self.as_upper_limit().is_limitless() {
            other.as_upper_limit()
        } else if other.as_upper_limit().is_limitless() {
            self.as_upper_limit()
        } else if !matches!(self.as_upper_limit().compare_value(other.as_upper_limit()), Ordering::Greater) {
            self.as_upper_limit()
        } else {
            other.as_upper_limit()
        }
    }

    fn greater_of_lower_included_in_intersection(&self, other: &Interval<T>) -> (r: bool)
        requires
            lawful::<T>(),
        ensures
            r == (self.spec_includes(self.spec_greater_of_lower_limits(*other)) && other.spec_includes(
                self.spec_greater_of_lower_limits(*other),
            )),
    {
        let limit = self.greater_of_lower_limits(other);
        self.includes(limit) && other.includes(limit)
    }

    fn greater_of_lower_included_in_union(&self, other: &Interval<T>) -> (r: bool)
        requires
            lawful::<T>(),
        ensures
            r == (self.spec_includes(self.spec_greater_of_lower_limits(*other)) || other.spec_includes(
                self.spec_greater_of_lower_limits(*other),
            )),
    {
        let limit = self.greater_of_lower_limits(other);
        self.includes(limit) || other.includes(limit)
    }

    fn lesser_of_upper_included_in_intersection(&self, other: &Interval<T>) -> (r: bool)
        requires
            lawful::<T>(),
        ensures
            r == (self.spec_includes(self.spec_lesser_of_upper_limits(*other)) && other.spec_includes(
                self.spec_lesser_of_upper_limits(*other),
            )),
    {
        let limit = self.lesser_of_upper_limits(other);
        self.includes(limit) && other.includes(limit)
    }

    fn lesser_of_upper_included_in_union(&self, other: &Interval<T>) -> (r: bool)
        requires
            lawful::<T>(),
        ensures
            r == (self.spec_includes(self.spec_lesser_of_upper_limits(*other)) || other.spec_includes(
                self.spec_lesser_of_upper_limits(*other),
            )),
    {
        let limit = self.lesser_of_upper_limits(other);
        self.includes(limit) || other.includes(limit)
    }

    /// An interval built like `over`; derived intervals are made through it.
    pub fn new_of_same_type(
        &self,
        lower: LimitValue<T>,
        lower_closed: bool,
        upper: LimitValue<T>,
        upper_closed: bool,
    ) -> (r: Interval<T>)
        requires
            lawful::<T>(),
            over_ok(lower, lower_closed, upper, upper_closed),
        ensures
            r == spec_over(lower, lower_closed, upper, upper_closed),
            r.wf(),
    {
        Self::over(lower, lower_closed, upper, upper_closed)
    }

    /// The interval open at both ends at this interval's lower value, or at
    /// its upper value when the lower one is unbounded; it is empty unless
    /// this interval is unbounded on both sides.
    pub fn empty_of_same_type(&self) -> (r: Interval<T>)
        requires
            lawful::<T>(),
        ensures
            r == spec_empty_at(if self.spec_has_lower_limit() { self.lower.value } else { self.upper.value }),
            !self.spec_is_unbounded() ==> r.spec_is_empty(),
            r.wf(),
    {
        proof {
            lemma_value_order::<T>();
        }
        let v = if self.has_lower_limit() { *self.as_lower_limit() } else { *self.as_upper_limit() };
        self.new_of_same_type(v, false, v, false)
    }

    /// Whether this interval encloses `other`.
    pub fn covers(&self, other: &Interval<T>) -> (r: bool)
        requires
            lawful::<T>(),
        ensures
            r == self.spec_covers(*other),
    {
        proof {
            lemma_order::<T>();
        }
        self.lower.le(&other.lower) && other.upper.le(&self.upper)
    }

    /// The common part of this interval and `other`; empty when there is none.
    pub fn intersect(&self, other: &Interval<T>) -> (r: Interval<T>)
        requires
            lawful::<T>(),
            self.wf(),
            other.wf(),
        ensures
            r == self.spec_intersect(*other),
            r.wf(),
            crosses(self.spec_greater_of_lower_limits(*other), self.spec_lesser_of_upper_limits(*other))
                ==> r.spec_is_empty(),
    {
        proof {
            lemma_order::<T>();
            lemma_value_order::<T>();
            lemma_limit_order::<T>();
        }
        let g = self.greater_of_lower_limits(other);
        let l = self.lesser_of_upper_limits(other);
        let crossed = g.is_limit() && l.is_limit() && matches!(g.compare_value(l), Ordering::Greater);
        if crossed {
            self.new_of_same_type(*g, false, *g, false)
        } else {
            self.new_of_same_type(
                *g,
                self.greater_of_lower_included_in_intersection(other),
                *l,
                self.lesser_of_upper_included_in_intersection(other),
            )
        }
    }

    /// Whether this interval and `other` have a common part.
    pub fn intersects(&self, other: &Interval<T>) -> (r: bool)
        requires
            lawful::<T>(),
        ensures
            r == self.spec_intersects(*other),
    {
        proof {
            lemma_order::<T>();
        }
        if self.equal_both_limitless(self.as_upper_limit(), other.as_upper_limit()) {
            true
        } else if self.equal_both_limitless(self.as_lower_limit(), other.as_lower_limit()) {
            true
        } else {
            let g = self.greater_of_lower_limits(other);
            let l = self.lesser_of_upper_limits(other);
            let c = g.compare_value(l);
            if matches!(c, Ordering::Less) {
                true
            } else if matches!(c, Ordering::Greater) {
                false
            } else {
                self.greater_of_lower_included_in_intersection(other)
                    && self.lesser_of_upper_included_in_intersection(other)
            }
        }
    }

    /// The interval between this one and `other`; empty when they overlap.
    pub fn gap(&self, other: &Interval<T>) -> (r: Interval<T>)
        requires
            lawful::<T>(),
            self.wf(),
            other.wf(),
        ensures
            r == self.spec_gap(*other),
            r.wf(),
            self.spec_intersects(*other) && !(self.spec_is_unbounded() && other.spec_is_unbounded())
                ==> r.spec_is_empty(),
    {
        proof {
            lemma_order::<T>();
            lemma_value_order::<T>();
            lemma_limit_order::<T>();
        }
        let g = self.greater_of_lower_limits(other);
        let l = self.lesser_of_upper_limits(other);
        if self.intersects(other) {
            if g.is_limit() {
                self.new_of_same_type(*g, false, *g, false)
            } else {
                self.new_of_same_type(*l, false, *l, false)
            }
        } else {
            self.new_of_same_type(
                *l,
                !self.lesser_of_upper_included_in_union(other),
                *g,
                !self.greater_of_lower_included_in_union(other),
            )
        }
    }

    /// The parts of `other` that lie outside this interval.
    pub fn complement_relative_to(&self, other: &Interval<T>) -> (r: Vec<Interval<T>>)
        requires
            lawful::<T>(),
            self.wf(),
            other.wf(),
        ensures
            r@ == self.spec_complement(*other),
            forall|k: int| 0 <= k < r@.len() ==> (#[trigger] r@[k]).wf(),
    {
        let mut interval_sequence: Vec<Interval<T>> = Vec::new();
        if !self.intersects(other) {
            interval_sequence.push(*other);
            proof {
                assert(interval_sequence@ =~= seq![*other]);
            }
            interval_sequence
        } else {
            let left = self.left_complement_relative_to(other);
            if let Some(left) = left {
                interval_sequence.push(left);
            }
            let right = self.right_complement_relative_to(other);
            if let Some(right) = right {
                interval_sequence.push(right);
            }
            proof {
                assert(interval_sequence@ =~= option_seq(self.spec_left_complement(*other)) + option_seq(
                    self.spec_right_complement(*other),
                ));
            }
            interval_sequence
        }
    }

    fn left_complement_relative_to(&self, other: &Interval<T>) -> (r: Option<Interval<T>>)
        requires
            lawful::<T>(),
            self.wf(),
            other.wf(),
        ensures
            r == self.spec_left_complement(*other),
            r matches Some(i) ==> i.wf(),
    {
        proof {
            lemma_order::<T>();
            lemma_value_order::<T>();
            lemma_limit_order::<T>();
        }
        if self.lower.le(&other.lower) {
            None
        } else {
            Some(
                self.new_of_same_type(
                    *other.as_lower_limit(),
                    other.includes_lower_limit(),
                    *self.as_lower_limit(),
                    !self.includes_lower_limit(),
                ),
            )
        }
    }

    fn right_complement_relative_to(&self, other: &Interval<T>) -> (r: Option<Interval<T>>)
        requires
            lawful::<T>(),
            self.wf(),
            other.wf(),
        ensures
            r == self.spec_right_complement(*other),
            r matches Some(i) ==> i.wf(),
    {
        proof {
            lemma_order::<T>();
            lemma_value_order::<T>();
            lemma_limit_order::<T>();
        }
        if other.upper.le(&self.upper) {
            None
        } else {
            Some(
                self.new_of_same_type(
                    *self.as_upper_limit(),
                    !self.includes_upper_limit(),
                    *other.as_upper_limit(),
                    other.includes_upper_limit(),
                ),
            )
        }
    }
}

/// How one end of a bracketed interval is written: its value, or `Infinity`
/// for an unbounded end.
pub open spec fn bound_text<T: Display>(v: LimitValue<T>, s: Seq<char>) -> bool {
    if v is Limit {
        value_text(v, s)
    } else {
        s == "Infinity"@
    }
}

/// `s` is how `i` is written: `{}` when empty, `{<value>}` for a single
/// element, and otherwise `[a, b]`, `(a, b)`, `[a, b)` or `(a, b]` after
/// which ends are included.
pub open spec fn interval_text<T: Ord + Display>(i: Interval<T>, s: Seq<char>) -> bool {
    if i.spec_is_empty() {
        s == "{}"@
    } else if i.spec_is_single_element() {
        exists|a: Seq<char>| value_text(i.lower.value, a) && s == "{"@ + a + "}"@
    } else {
        exists|a: Seq<char>, b: Seq<char>|
            bound_text(i.lower.value, a) && bound_text(i.upper.value, b) && s == (if i.lower.closed {
                "["@
            } else {
                "("@
            }) + a + ", "@ + b + (if i.upper.closed {
                "]"@
            } else {
                ")"@
            })
    }
}

impl<T: Ord + Copy + Display> Interval<T> {
    /// This interval as text; see `interval_text`.
    pub fn to_string(&self) -> (r: String)
        requires
            lawful::<T>(),
        ensures
            interval_text(*self, r@),
    {
        if self.is_empty() {
            String::from_str("{}")
        } else if self.is_single_element() {
            let v = self.as_lower_limit().to_string();
            let mut out = String::from_str("{");
            out.append(v.as_str());
            out.append("}");
            proof {
                assert(value_text(self.lower.value, v@));
            }
            out
        } else {
            let mut out = if self.includes_lower_limit() {
                String::from_str("[")
            } else {
                String::from_str("(")
            };
            let a = if self.has_lower_limit() {
                self.as_lower_limit().to_string()
            } else {
                String::from_str("Infinity")
            };
            out.append(a.as_str());
            out.append(", ");
            let b = if self.has_upper_limit() {
                self.as_upper_limit().to_string()
            } else {
                String::from_str("Infinity")
            };
            out.append(b.as_str());
            if self.includes_upper_limit() {
                out.append("]");
            } else {
                out.append(")");
            }
            proof {
                assert(bound_text(self.lower.value, a@));
                assert(bound_text(self.upper.value, b@));
            }
            out
        }
    }
}

impl<T: Ord + Copy> PartialEq for Interval<T> {
    fn eq(&self, other: &Self) -> (r: bool) {
        let e1 = self.check_empty();
        let e2 = other.check_empty();
        if e1 && e2 {
            true
        } else if e1 ^ e2 {
            false
        } else {
            let s1 = self.check_single_element();
            let s2 = other.check_single_element();
            if s1 && s2 {
                self.as_lower_limit().same_as(other.as_lower_limit())
            } else if s1 ^ s2 {
                false
            } else {
                let cu = self.upper.compare(&other.upper);
                let cl = self.lower.compare(&other.lower);
                matches!(cu, Ordering::Equal) && matches!(cl, Ordering::Equal)
            }
        }
    }
}

impl<T: Ord + Copy> vstd::std_specs::cmp::PartialEqSpecImpl for Interval<T> {
    open spec fn obeys_eq_spec() -> bool {
        T::obeys_cmp_spec()
    }

    open spec fn eq_spec(&self, other: &Interval<T>) -> bool {
        interval_eq(*self, *other)
    }
}

} // verus!
