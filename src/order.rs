use vstd::prelude::*;
use vstd::laws_cmp::*;
use vstd::laws_eq::*;
use vstd::std_specs::cmp::{OrdSpec, PartialEqSpec, PartialOrdSpec};
use std::cmp::Ordering;

verus! {

/// What `T`'s `Ord` impl must obey for the interval algebra to be sound:
/// `cmp` is a total preorder whose `==` and `partial_cmp` agree with it.
pub open spec fn lawful<T: Ord>() -> bool {
    obeys_cmp::<T>()
}

/// `a` comes strictly before `b` in `T`'s order.
pub open spec fn lt<T: Ord>(a: T, b: T) -> bool {
    a.cmp_spec(&b) == Ordering::Less
}

/// `a` and `b` are in the same place in `T`'s order.
pub open spec fn eqv<T: Ord>(a: T, b: T) -> bool {
    a.cmp_spec(&b) == Ordering::Equal
}

/// The order of `T` read as a total preorder.
pub proof fn lemma_order<T: Ord>()
    requires
        lawful::<T>(),
    ensures
        T::obeys_cmp_spec(),
        T::obeys_eq_spec(),
        T::obeys_partial_cmp_spec(),
        forall|a: T, b: T| #[trigger] a.eq_spec(&b) <==> eqv(a, b),
        forall|a: T, b: T| #[trigger] a.partial_cmp_spec(&b) == Some(a.cmp_spec(&b)),
        forall|a: T| #[trigger] eqv(a, a),
        forall|a: T, b: T| #[trigger] lt(a, b) <==> b.cmp_spec(&a) == Ordering::Greater,
        forall|a: T, b: T| #[trigger] eqv(a, b) ==> eqv(b, a),
        forall|a: T, b: T, c: T| #[trigger] lt(a, b) && #[trigger] lt(b, c) ==> lt(a, c),
        forall|a: T, b: T, c: T| #[trigger] eqv(a, b) && #[trigger] eqv(b, c) ==> eqv(a, c),
        forall|a: T, b: T, c: T| #[trigger] lt(a, b) && #[trigger] eqv(b, c) ==> lt(a, c),
        forall|a: T, b: T, c: T| #[trigger] eqv(a, b) && #[trigger] lt(b, c) ==> lt(a, c),
{
    reveal(obeys_eq_spec_properties);
    reveal(obeys_partial_cmp_spec_properties);
    reveal(obeys_cmp_partial_ord);
    reveal(obeys_cmp_ord);
    assert forall|a: T| #[trigger] eqv(a, a) by {
        assert(a.partial_cmp_spec(&a) == Some(a.cmp_spec(&a)));
    }
    assert forall|a: T, b: T| #[trigger] eqv(a, b) implies eqv(b, a) by {
        assert(a.partial_cmp_spec(&b) == Some(a.cmp_spec(&b)));
        assert(b.partial_cmp_spec(&a) == Some(b.cmp_spec(&a)));
        assert(a.eq_spec(&b));
    }
    assert forall|a: T, b: T, c: T| #[trigger] eqv(a, b) && #[trigger] eqv(b, c) implies eqv(a, c) by {
        assert(a.partial_cmp_spec(&b) == Some(a.cmp_spec(&b)));
        assert(b.partial_cmp_spec(&c) == Some(b.cmp_spec(&c)));
        assert(a.partial_cmp_spec(&c) == Some(a.cmp_spec(&c)));
        assert(a.eq_spec(&b));
        assert(b.eq_spec(&c));
    }
    assert forall|a: T, b: T, c: T| #[trigger] lt(a, b) && #[trigger] eqv(b, c) implies lt(a, c) by {
        assert(a.partial_cmp_spec(&b) == Some(a.cmp_spec(&b)));
        assert(b.partial_cmp_spec(&c) == Some(b.cmp_spec(&c)));
        assert(a.partial_cmp_spec(&c) == Some(a.cmp_spec(&c)));
        assert(c.partial_cmp_spec(&a) == Some(c.cmp_spec(&a)));
        assert(c.partial_cmp_spec(&b) == Some(c.cmp_spec(&b)));
        assert(b.partial_cmp_spec(&a) == Some(b.cmp_spec(&a)));
        assert(b.eq_spec(&c));
    }
    assert forall|a: T, b: T, c: T| #[trigger] eqv(a, b) && #[trigger] lt(b, c) implies lt(a, c) by {
        assert(a.partial_cmp_spec(&b) == Some(a.cmp_spec(&b)));
        assert(b.partial_cmp_spec(&c) == Some(b.cmp_spec(&c)));
        assert(a.partial_cmp_spec(&c) == Some(a.cmp_spec(&c)));
        assert(c.partial_cmp_spec(&a) == Some(c.cmp_spec(&a)));
        assert(b.partial_cmp_spec(&a) == Some(b.cmp_spec(&a)));
        assert(c.partial_cmp_spec(&b) == Some(c.cmp_spec(&b)));
        assert(a.eq_spec(&b));
    }
}

} // verus!
