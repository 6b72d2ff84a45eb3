use vstd::prelude::*;
use vstd::std_specs::cmp::OrdSpec;
use vstd::string::{StringExecFns, to_string_from_display_ensures};
use std::cmp::Ordering;
use std::fmt::Display;

use crate::errors::Error;
use crate::order::{lawful, lemma_order, lt, eqv};

verus! {

/// A bound value: either a concrete value or the absence of a bound.
#[derive(Debug, Clone, Copy, Hash)]
pub enum LimitValue<T> {
    Limit(T),
    Limitless,
}

/// The side-free order of bound values: `Limitless` first, then the
/// concrete values in `T`'s order.
pub open spec fn value_cmp<T: Ord>(a: LimitValue<T>, b: LimitValue<T>) -> Ordering {
    match (a, b) {
        (LimitValue::Limitless, LimitValue::Limitless) => Ordering::Equal,
        (LimitValue::Limitless, LimitValue::Limit(_)) => Ordering::Less,
        (LimitValue::Limit(_), LimitValue::Limitless) => Ordering::Greater,
        (LimitValue::Limit(x), LimitValue::Limit(y)) => x.cmp_spec(&y),
    }
}

/// Both are `Limitless`, or both hold values that `T` orders alike.
pub open spec fn same_value<T: Ord>(a: LimitValue<T>, b: LimitValue<T>) -> bool {
    value_cmp(a, b) == Ordering::Equal
}

/// `value_cmp` is a total preorder.
pub proof fn lemma_value_order<T: Ord>()
    requires
        lawful::<T>(),
    ensures
        forall|a: LimitValue<T>| #[trigger] same_value(a, a),
        forall|a: LimitValue<T>, b: LimitValue<T>|
            #[trigger] value_cmp(a, b) == Ordering::Less <==> value_cmp(b, a) == Ordering::Greater,
        forall|a: LimitValue<T>, b: LimitValue<T>| #[trigger] same_value(a, b) ==> same_value(b, a),
        forall|a: LimitValue<T>, b: LimitValue<T>, c: LimitValue<T>|
            #[trigger] value_cmp(a, b) != Ordering::Greater && #[trigger] value_cmp(b, c) != Ordering::Greater
                ==> value_cmp(a, c) != Ordering::Greater,
        forall|a: LimitValue<T>, b: LimitValue<T>, c: LimitValue<T>|
            #[trigger] value_cmp(a, b) == Ordering::Less && #[trigger] value_cmp(b, c) != Ordering::Greater
                ==> value_cmp(a, c) == Ordering::Less,
        forall|a: LimitValue<T>, b: LimitValue<T>, c: LimitValue<T>|
            #[trigger] value_cmp(a, b) != Ordering::Greater && #[trigger] value_cmp(b, c) == Ordering::Less
                ==> value_cmp(a, c) == Ordering::Less,
{
    lemma_order::<T>();
    assert forall|a: LimitValue<T>| #[trigger] same_value(a, a) by {
        if a is Limit {
            assert(eqv(a->Limit_0, a->Limit_0));
        }
    }
    assert forall|a: LimitValue<T>, b: LimitValue<T>|
        #[trigger] value_cmp(a, b) == Ordering::Less <==> value_cmp(b, a) == Ordering::Greater by {
        if a is Limit && b is Limit {
            assert(lt(a->Limit_0, b->Limit_0) <==> b->Limit_0.cmp_spec(&a->Limit_0) == Ordering::Greater);
        }
    }
    assert forall|a: LimitValue<T>, b: LimitValue<T>| #[trigger] same_value(a, b) implies same_value(b, a) by {
        if a is Limit && b is Limit {
            assert(eqv(a->Limit_0, b->Limit_0) ==> eqv(b->Limit_0, a->Limit_0));
        }
    }
    assert forall|a: LimitValue<T>, b: LimitValue<T>, c: LimitValue<T>|
        #[trigger] value_cmp(a, b) != Ordering::Greater && #[trigger] value_cmp(b, c) != Ordering::Greater
            implies value_cmp(a, c) != Ordering::Greater by {
        lemma_value_trans(a, b, c);
    }
    assert forall|a: LimitValue<T>, b: LimitValue<T>, c: LimitValue<T>|
        #[trigger] value_cmp(a, b) == Ordering::Less && #[trigger] value_cmp(b, c) != Ordering::Greater
            implies value_cmp(a, c) == Ordering::Less by {
        lemma_value_trans(a, b, c);
    }
    assert forall|a: LimitValue<T>, b: LimitValue<T>, c: LimitValue<T>|
        #[trigger] value_cmp(a, b) != Ordering::Greater && #[trigger] value_cmp(b, c) == Ordering::Less
            implies value_cmp(a, c) == Ordering::Less by {
        lemma_value_trans(a, b, c);
    }
}

proof fn lemma_value_trans<T: Ord>(a: LimitValue<T>, b: LimitValue<T>, c: LimitValue<T>)
    requires
        lawful::<T>(),
    ensures
        value_cmp(a, b) != Ordering::Greater && value_cmp(b, c) != Ordering::Greater
            ==> value_cmp(a, c) != Ordering::Greater,
        value_cmp(a, b) == Ordering::Less && value_cmp(b, c) != Ordering::Greater
            ==> value_cmp(a, c) == Ordering::Less,
        value_cmp(a, b) != Ordering::Greater && value_cmp(b, c) == Ordering::Less
            ==> value_cmp(a, c) == Ordering::Less,
{
    lemma_order::<T>();
    if a is Limit && b is Limit && c is Limit {
        let x = a->Limit_0;
        let y = b->Limit_0;
        let z = c->Limit_0;
        assert(lt(y, x) ==> x.cmp_spec(&y) == Ordering::Greater);
        assert(lt(z, y) ==> y.cmp_spec(&z) == Ordering::Greater);
        assert(lt(z, x) ==> x.cmp_spec(&z) == Ordering::Greater);
        assert(x.cmp_spec(&y) == Ordering::Greater ==> lt(y, x));
        assert(y.cmp_spec(&z) == Ordering::Greater ==> lt(z, y));
        assert(x.cmp_spec(&z) == Ordering::Greater ==> lt(z, x));
        if lt(x, y) && lt(y, z) { assert(lt(x, z)); }
        if lt(x, y) && eqv(y, z) { assert(lt(x, z)); }
        if eqv(x, y) && lt(y, z) { assert(lt(x, z)); }
        if eqv(x, y) && eqv(y, z) { assert(eqv(x, z)); }
        if lt(z, x) && eqv(x, y) { assert(lt(z, y)); }
        if lt(z, x) && lt(x, y) { assert(lt(z, y)); }
        if eqv(y, z) && lt(z, x) { assert(lt(y, x)); }
    }
}

impl<T> LimitValue<T> {
    pub fn is_limit(&self) -> (r: bool)
        ensures
            r == (*self is Limit),
    {
        match self {
            LimitValue::Limit(_) => true,
            LimitValue::Limitless => false,
        }
    }

    pub fn is_limitless(&self) -> (r: bool)
        ensures
            r == (*self is Limitless),
    {
        match self {
            LimitValue::Limit(_) => false,
            LimitValue::Limitless => true,
        }
    }

    /// The concrete value, or `NotFoundError` for `Limitless`.
    pub fn to_value(&self) -> (r: Result<&T, Error>)
        ensures
            match *self {
                LimitValue::Limit(v) => r is Ok && *r->Ok_0 == v,
                LimitValue::Limitless => r == Err::<&T, Error>(Error::NotFoundError),
            },
    {
        match self {
            LimitValue::Limit(a) => Ok(a),
            LimitValue::Limitless => Err(Error::NotFoundError),
        }
    }

    /// The concrete value, or what `default` gives for `Limitless`.
    pub fn to_value_or<'a, TF>(&'a self, default: TF) -> (r: &'a T)
        where
            TF: Fn() -> &'a T,
        requires
            *self is Limitless ==> default.requires(()),
        ensures
            match *self {
                LimitValue::Limit(v) => *r == v,
                LimitValue::Limitless => default.ensures((), r),
            },
    {
        match self {
            LimitValue::Limit(a) => a,
            LimitValue::Limitless => default(),
        }
    }
}

impl<T: Ord> LimitValue<T> {
    /// Compares two bound values in the side-free order.
    pub(crate) fn compare_value(&self, other: &Self) -> (r: Ordering)
        ensures
            T::obeys_cmp_spec() ==> r == value_cmp(*self, *other),
    {
        match (self, other) {
            (LimitValue::Limitless, LimitValue::Limitless) => Ordering::Equal,
            (LimitValue::Limitless, LimitValue::Limit(_)) => Ordering::Less,
            (LimitValue::Limit(_), LimitValue::Limitless) => Ordering::Greater,
            (LimitValue::Limit(x), LimitValue::Limit(y)) => x.cmp(y),
        }
    }

    pub(crate) fn same_as(&self, other: &Self) -> (r: bool)
        ensures
            T::obeys_cmp_spec() ==> r == same_value(*self, *other),
    {
        let c = self.compare_value(other);
        matches!(c, Ordering::Equal)
    }
}

impl<T: Ord> PartialEq for LimitValue<T> {
    fn eq(&self, other: &Self) -> (r: bool) {
        self.same_as(other)
    }
}

impl<T: Ord> vstd::std_specs::cmp::PartialEqSpecImpl for LimitValue<T> {
    open spec fn obeys_eq_spec() -> bool {
        T::obeys_cmp_spec()
    }

    open spec fn eq_spec(&self, other: &LimitValue<T>) -> bool {
        same_value(*self, *other)
    }
}

impl<T: Ord> PartialOrd for LimitValue<T> {
    fn partial_cmp(&self, other: &Self) -> (r: Option<Ordering>) {
        Some(self.compare_value(other))
    }
}

impl<T: Ord> vstd::std_specs::cmp::PartialOrdSpecImpl for LimitValue<T> {
    open spec fn obeys_partial_cmp_spec() -> bool {
        T::obeys_cmp_spec()
    }

    open spec fn partial_cmp_spec(&self, other: &LimitValue<T>) -> Option<Ordering> {
        Some(value_cmp(*self, *other))
    }
}

impl<T> From<Option<T>> for LimitValue<T> {
    fn from(value: Option<T>) -> (r: LimitValue<T>) {
        match value {
            None => LimitValue::Limitless,
            Some(v) => LimitValue::Limit(v),
        }
    }
}

impl<T> vstd::std_specs::convert::FromSpecImpl<Option<T>> for LimitValue<T> {
    open spec fn obeys_from_spec() -> bool {
        true
    }

    open spec fn from_spec(value: Option<T>) -> LimitValue<T> {
        match value {
            None => LimitValue::Limitless,
            Some(v) => LimitValue::Limit(v),
        }
    }
}

/// `s` is how `v` is written: `Limit(<value>)` or `Limitless`.
pub open spec fn value_text<T: Display>(v: LimitValue<T>, s: Seq<char>) -> bool {
    match v {
        LimitValue::Limit(x) => exists|t: String|
            to_string_from_display_ensures::<T>(&x, t) && s == "Limit("@ + t@ + ")"@,
        LimitValue::Limitless => s == "Limitless"@,
    }
}

impl<T: Display> LimitValue<T> {
    /// This value as text: `Limit(<value>)` or `Limitless`.
    pub fn to_string(&self) -> (r: String)
        ensures
            value_text(*self, r@),
    {
        match self {
            LimitValue::Limit(a) => {
                let t = a.to_string();
                let mut out = String::from_str("Limit(");
                out.append(t.as_str());
                out.append(")");
                out
            },
            LimitValue::Limitless => String::from_str("Limitless"),
        }
    }
}

impl<T: Default> Default for LimitValue<T> {
    fn default() -> (r: Self)
        ensures
            r is Limit,
    {
        LimitValue::Limit(T::default())
    }
}

} // verus!
