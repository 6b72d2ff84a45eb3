use vstd::prelude::*;
use vstd::std_specs::cmp::OrdSpec;
use vstd::string::StringExecFns;
use std::cmp::Ordering;
use std::fmt::Display;

use crate::limit_value::{LimitValue, value_cmp, value_text};
use crate::order::{lawful, lemma_order, lt, eqv};

verus! {

/// One end of an interval.
///
/// `closed` tells whether the bound value itself belongs to the interval,
/// `lower` whether this is the lower end (else the upper end), and `value`
/// is the bound, `Limitless` for an unbounded end. An unbounded end is never
/// closed.
#[derive(Debug, Clone, Copy, Hash)]
pub struct IntervalLimit<T> {
    pub closed: bool,
    pub lower: bool,
    pub value: LimitValue<T>,
}

impl<T> IntervalLimit<T> {
    /// An unbounded limit is open.
    pub open spec fn wf(&self) -> bool {
        self.value is Limitless ==> !self.closed
    }

    /// The limit that `new` builds from these arguments.
    pub open spec fn spec_new(closed: bool, lower: bool, value: LimitValue<T>) -> IntervalLimit<T> {
        IntervalLimit { closed: closed && value is Limit, lower, value }
    }

    /// 0 for an unbounded lower limit, 1 for a finite one, 2 for an unbounded upper limit.
    pub open spec fn tier(&self) -> int {
        match self.value {
            LimitValue::Limitless => if self.lower { 0 } else { 2 },
            LimitValue::Limit(_) => 1,
        }
    }

    /// The place of a finite limit among the limits at its value:
    /// closed lower, open lower, open upper, closed upper.
    pub open spec fn rank(&self) -> int {
        if self.lower {
            if self.closed { 0 } else { 1 }
        } else {
            if self.closed { 3 } else { 2 }
        }
    }
}

impl<T> IntervalLimit<T> {
    /// Whether the bound value belongs to the interval.
    pub fn is_closed(&self) -> (r: bool)
        ensures
            r == self.closed,
    {
        self.closed
    }

    pub fn is_open(&self) -> (r: bool)
        ensures
            r == !self.closed,
    {
        !self.closed
    }

    pub fn is_lower(&self) -> (r: bool)
        ensures
            r == self.lower,
    {
        self.lower
    }

    pub fn is_upper(&self) -> (r: bool)
        ensures
            r == !self.lower,
    {
        !self.lower
    }

    /// Whether this limit is unbounded.
    pub fn is_infinity(&self) -> (r: bool)
        ensures
            r == (self.value is Limitless),
    {
        self.value.is_limitless()
    }

    pub fn is_finite(&self) -> (r: bool)
        ensures
            r == (self.value is Limit),
    {
        self.value.is_limit()
    }

    pub fn as_value(&self) -> (r: &LimitValue<T>)
        ensures
            *r == self.value,
    {
        &self.value
    }

    /// Builds a limit; an unbounded one is made open whatever `closed` says.
    pub fn new(closed: bool, lower: bool, value: LimitValue<T>) -> (r: Self)
        ensures
            r == Self::spec_new(closed, lower, value),
            r.wf(),
    {
        let closed = if value.is_limitless() { false } else { closed };
        IntervalLimit { closed, lower, value }
    }

    /// Builds a lower limit.
    pub fn lower(closed: bool, value: LimitValue<T>) -> (r: Self)
        ensures
            r == Self::spec_new(closed, true, value),
            r.wf(),
    {
        Self::new(closed, true, value)
    }

    /// Builds an upper limit.
    pub fn upper(closed: bool, value: LimitValue<T>) -> (r: Self)
        ensures
            r == Self::spec_new(closed, false, value),
            r.wf(),
    {
        Self::new(closed, false, value)
    }

    fn lower_to_ordering<A>(&self, t: A, f: A) -> (r: A)
        ensures
            r == if self.lower { t } else { f },
    {
        if self.lower {
            t
        } else {
            f
        }
    }

    fn closed_to_ordering<A>(&self, t: A, f: A) -> (r: A)
        ensures
            r == if self.closed { t } else { f },
    {
        if self.closed {
            t
        } else {
            f
        }
    }
}

impl<T: Ord> IntervalLimit<T> {
    /// Compares two limits in the side-aware order.
    pub(crate) fn compare(&self, other: &Self) -> (r: Ordering)
        ensures
            T::obeys_cmp_spec() ==> r == limit_cmp(*self, *other),
    {
        if self.value.is_limitless() && other.value.is_limitless() {
            if self.lower == other.lower {
                Ordering::Equal
            } else {
                self.lower_to_ordering(Ordering::Less, Ordering::Greater)
            }
        } else if self.value.is_limitless() {
            self.lower_to_ordering(Ordering::Less, Ordering::Greater)
        } else if other.value.is_limitless() {
            other.lower_to_ordering(Ordering::Greater, Ordering::Less)
        } else if self.value.same_as(&other.value) {
            if self.lower && other.lower {
                if self.closed ^ other.closed {
                    self.closed_to_ordering(Ordering::Less, Ordering::Greater)
                } else {
                    Ordering::Equal
                }
            } else if !self.lower && !other.lower {
                if self.closed ^ other.closed {
                    self.closed_to_ordering(Ordering::Greater, Ordering::Less)
                } else {
                    Ordering::Equal
                }
            } else {
                self.lower_to_ordering(Ordering::Less, Ordering::Greater)
            }
        } else {
            self.value.compare_value(&other.value)
        }
    }

    pub(crate) fn le(&self, other: &Self) -> (r: bool)
        ensures
            T::obeys_cmp_spec() ==> r == limit_le(*self, *other),
    {
        let c = self.compare(other);
        !matches!(c, Ordering::Greater)
    }
}

impl<T: Ord> PartialEq for IntervalLimit<T> {
    fn eq(&self, other: &Self) -> (r: bool) {
        let c = self.compare(other);
        matches!(c, Ordering::Equal)
    }
}

impl<T: Ord> vstd::std_specs::cmp::PartialEqSpecImpl for IntervalLimit<T> {
    open spec fn obeys_eq_spec() -> bool {
        T::obeys_cmp_spec()
    }

    open spec fn eq_spec(&self, other: &IntervalLimit<T>) -> bool {
        limit_eqv(*self, *other)
    }
}

impl<T: Ord> PartialOrd for IntervalLimit<T> {
    fn partial_cmp(&self, other: &Self) -> (r: Option<Ordering>) {
        Some(self.compare(other))
    }
}

impl<T: Ord> vstd::std_specs::cmp::PartialOrdSpecImpl for IntervalLimit<T> {
    open spec fn obeys_partial_cmp_spec() -> bool {
        T::obeys_cmp_spec()
    }

    open spec fn partial_cmp_spec(&self, other: &IntervalLimit<T>) -> Option<Ordering> {
        Some(limit_cmp(*self, *other))
    }
}

/// The side-aware order of limits: unbounded lower limits first and unbounded
/// upper limits last; finite limits by value, and at one value by `rank`.
pub open spec fn limit_cmp<T: Ord>(a: IntervalLimit<T>, b: IntervalLimit<T>) -> Ordering {
    if a.tier() < b.tier() {
        Ordering::Less
    } else if a.tier() > b.tier() {
        Ordering::Greater
    } else if a.tier() != 1 {
        Ordering::Equal
    } else if value_cmp(a.value, b.value) != Ordering::Equal {
        value_cmp(a.value, b.value)
    } else if a.rank() < b.rank() {
        Ordering::Less
    } else if a.rank() > b.rank() {
        Ordering::Greater
    } else {
        Ordering::Equal
    }
}

pub open spec fn limit_lt<T: Ord>(a: IntervalLimit<T>, b: IntervalLimit<T>) -> bool {
    limit_cmp(a, b) == Ordering::Less
}

pub open spec fn limit_le<T: Ord>(a: IntervalLimit<T>, b: IntervalLimit<T>) -> bool {
    limit_cmp(a, b) != Ordering::Greater
}

pub open spec fn limit_eqv<T: Ord>(a: IntervalLimit<T>, b: IntervalLimit<T>) -> bool {
    limit_cmp(a, b) == Ordering::Equal
}

proof fn lemma_limit_trans<T: Ord>(a: IntervalLimit<T>, b: IntervalLimit<T>, c: IntervalLimit<T>)
    requires
        lawful::<T>(),
    ensures
        limit_lt(a, b) && limit_le(b, c) ==> limit_lt(a, c),
        limit_le(a, b) && limit_lt(b, c) ==> limit_lt(a, c),
        limit_eqv(a, b) && limit_eqv(b, c) ==> limit_eqv(a, c),
{
    lemma_order::<T>();
    if a.tier() == 1 && b.tier() == 1 && c.tier() == 1 {
        let x = a.value->Limit_0;
        let y = b.value->Limit_0;
        let z = c.value->Limit_0;
        assert(lt(x, y) ==> y.cmp_spec(&x) == Ordering::Greater);
        assert(lt(y, z) ==> z.cmp_spec(&y) == Ordering::Greater);
        assert(lt(x, z) ==> z.cmp_spec(&x) == Ordering::Greater);
        assert(lt(y, x) ==> x.cmp_spec(&y) == Ordering::Greater);
        assert(lt(z, y) ==> y.cmp_spec(&z) == Ordering::Greater);
        assert(lt(z, x) ==> x.cmp_spec(&z) == Ordering::Greater);
        assert(eqv(x, y) ==> eqv(y, x));
        assert(eqv(y, z) ==> eqv(z, y));
        assert(eqv(x, z) ==> eqv(z, x));
        if lt(x, y) && lt(y, z) { assert(lt(x, z)); }
        if lt(z, y) && lt(y, x) { assert(lt(z, x)); }
        if lt(x, y) && eqv(y, z) { assert(lt(x, z)); }
        if eqv(x, y) && lt(y, z) { assert(lt(x, z)); }
        if eqv(x, y) && eqv(y, z) { assert(eqv(x, z)); }
        if lt(z, y) && eqv(y, x) { assert(lt(z, x)); }
        if eqv(z, y) && lt(y, x) { assert(lt(z, x)); }
    }
}

/// `limit_cmp` is a total preorder.
pub proof fn lemma_limit_order<T: Ord>()
    requires
        lawful::<T>(),
    ensures
        forall|a: IntervalLimit<T>| #[trigger] limit_eqv(a, a),
        forall|a: IntervalLimit<T>, b: IntervalLimit<T>|
            #[trigger] limit_lt(a, b) <==> limit_cmp(b, a) == Ordering::Greater,
        forall|a: IntervalLimit<T>, b: IntervalLimit<T>| #[trigger] limit_eqv(a, b) ==> limit_eqv(b, a),
        forall|a: IntervalLimit<T>, b: IntervalLimit<T>, c: IntervalLimit<T>|
            #[trigger] limit_lt(a, b) && #[trigger] limit_le(b, c) ==> limit_lt(a, c),
        forall|a: IntervalLimit<T>, b: IntervalLimit<T>, c: IntervalLimit<T>|
            #[trigger] limit_le(a, b) && #[trigger] limit_lt(b, c) ==> limit_lt(a, c),
        forall|a: IntervalLimit<T>, b: IntervalLimit<T>, c: IntervalLimit<T>|
            #[trigger] limit_le(a, b) && #[trigger] limit_le(b, c) ==> limit_le(a, c),
        forall|a: IntervalLimit<T>, b: IntervalLimit<T>, c: IntervalLimit<T>|
            #[trigger] limit_eqv(a, b) && #[trigger] limit_eqv(b, c) ==> limit_eqv(a, c),
{
    lemma_order::<T>();
    assert forall|a: IntervalLimit<T>| #[trigger] limit_eqv(a, a) by {
        if a.tier() == 1 {
            assert(eqv(a.value->Limit_0, a.value->Limit_0));
        }
    }
    assert forall|a: IntervalLimit<T>, b: IntervalLimit<T>|
        #[trigger] limit_lt(a, b) <==> limit_cmp(b, a) == Ordering::Greater by {
        if a.tier() == 1 && b.tier() == 1 {
            let x = a.value->Limit_0;
            let y = b.value->Limit_0;
            assert(lt(x, y) <==> y.cmp_spec(&x) == Ordering::Greater);
            assert(lt(y, x) <==> x.cmp_spec(&y) == Ordering::Greater);
            assert(eqv(x, y) ==> eqv(y, x));
            assert(eqv(y, x) ==> eqv(x, y));
        }
    }
    assert forall|a: IntervalLimit<T>, b: IntervalLimit<T>| #[trigger] limit_eqv(a, b) implies limit_eqv(b, a) by {
        if a.tier() == 1 && b.tier() == 1 {
            assert(eqv(a.value->Limit_0, b.value->Limit_0) ==> eqv(b.value->Limit_0, a.value->Limit_0));
        }
    }
    assert forall|a: IntervalLimit<T>, b: IntervalLimit<T>, c: IntervalLimit<T>|
        #[trigger] limit_lt(a, b) && #[trigger] limit_le(b, c) implies limit_lt(a, c) by {
        lemma_limit_trans(a, b, c);
    }
    assert forall|a: IntervalLimit<T>, b: IntervalLimit<T>, c: IntervalLimit<T>|
        #[trigger] limit_le(a, b) && #[trigger] limit_lt(b, c) implies limit_lt(a, c) by {
        lemma_limit_trans(a, b, c);
    }
    assert forall|a: IntervalLimit<T>, b: IntervalLimit<T>, c: IntervalLimit<T>|
        #[trigger] limit_le(a, b) && #[trigger] limit_le(b, c) implies limit_le(a, c) by {
        lemma_limit_trans(a, b, c);
        if !limit_lt(a, b) && !limit_lt(b, c) {
            assert(limit_eqv(a, b) && limit_eqv(b, c));
        }
    }
    assert forall|a: IntervalLimit<T>, b: IntervalLimit<T>, c: IntervalLimit<T>|
        #[trigger] limit_eqv(a, b) && #[trigger] limit_eqv(b, c) implies limit_eqv(a, c) by {
        lemma_limit_trans(a, b, c);
    }
}

/// How a flag is written.
pub open spec fn bool_text(b: bool) -> Seq<char> {
    if b {
        "true"@
    } else {
        "false"@
    }
}

fn bool_to_string(b: bool) -> (r: String)
    ensures
        r@ == bool_text(b),
{
    if b {
        String::from_str("true")
    } else {
        String::from_str("false")
    }
}

impl<T: Display> IntervalLimit<T> {
    /// This limit as text: `IntervalLimit(<closed>, <lower>, <value>)`.
    pub fn to_string(&self) -> (r: String)
        ensures
            exists|v: Seq<char>|
                value_text(self.value, v) && r@ == "IntervalLimit("@ + bool_text(self.closed) + ", "@
                    + bool_text(self.lower) + ", "@ + v + ")"@,
    {
        let v = self.value.to_string();
        let mut out = String::from_str("IntervalLimit(");
        let c = bool_to_string(self.closed);
        out.append(c.as_str());
        out.append(", ");
        let l = bool_to_string(self.lower);
        out.append(l.as_str());
        out.append(", ");
        out.append(v.as_str());
        out.append(")");
        proof {
            assert(value_text(self.value, v@));
        }
        out
    }
}

} // verus!
