use vstd::prelude::*;
use vstd::std_specs::cmp::OrdSpec;
use std::cmp::Ordering;

use crate::interval::{Interval, spec_over};
use crate::interval_limit::{IntervalLimit, limit_cmp, limit_eqv, limit_le, limit_lt, lemma_limit_order};
use crate::order::{lawful, lemma_order};
use crate::to_ordering;

verus! {

/// How an interval sequence orders its elements: by upper limits and then
/// lower limits, or the other way round; each comparison may be reversed.
#[derive(Debug, Clone, Copy)]
pub enum Ordered {
    UpperLower { inverse_lower: bool, inverse_upper: bool },
    LowerUpper { inverse_lower: bool, inverse_upper: bool },
}

/// The opposite of an ordering.
pub open spec fn reversed(c: Ordering) -> Ordering {
    match c {
        Ordering::Less => Ordering::Greater,
        Ordering::Equal => Ordering::Equal,
        Ordering::Greater => Ordering::Less,
    }
}

/// `c`, reversed when `inverse` holds.
pub open spec fn scaled(c: Ordering, inverse: bool) -> Ordering {
    if inverse {
        reversed(c)
    } else {
        c
    }
}

/// -1, 0 or 1 for less, equal or greater.
pub open spec fn sign(c: Ordering) -> int {
    match c {
        Ordering::Less => -1,
        Ordering::Equal => 0,
        Ordering::Greater => 1,
    }
}

/// The policy a new sequence sorts by: upper limits ascending, then lower
/// limits ascending, empty intervals first.
pub open spec fn default_order() -> Ordered {
    Ordered::UpperLower { inverse_lower: false, inverse_upper: false }
}

/// Every interval of `s` is well formed.
pub open spec fn all_wf<T: Ord>(s: Seq<Interval<T>>) -> bool {
    forall|k: int| 0 <= k < s.len() ==> (#[trigger] s[k]).wf()
}

/// `s` is in the order that `ord` gives.
pub open spec fn sorted_by<T: Ord>(ord: Ordered, s: Seq<Interval<T>>) -> bool {
    forall|i: int, j: int|
        0 <= i < j < s.len() ==> ord.spec_compare(s[i], s[j]) != Ordering::Greater
}

/// The non-empty gaps between neighbours of `s`, in order.
pub open spec fn spec_pairwise_gaps<T: Ord>(s: Seq<Interval<T>>) -> Seq<Interval<T>>
    decreases s.len(),
{
    if s.len() < 2 {
        Seq::empty()
    } else {
        let g = s[s.len() - 2].spec_gap(s[s.len() - 1]);
        spec_pairwise_gaps(s.drop_last()) + if g.spec_is_empty() {
            Seq::empty()
        } else {
            seq![g]
        }
    }
}

/// The non-empty intersections of neighbours of `s`, in order.
pub open spec fn spec_pairwise_intersections<T: Ord>(s: Seq<Interval<T>>) -> Seq<Interval<T>>
    decreases s.len(),
{
    if s.len() < 2 {
        Seq::empty()
    } else {
        let g = s[s.len() - 2].spec_intersect(s[s.len() - 1]);
        spec_pairwise_intersections(s.drop_last()) + if g.spec_is_empty() {
            Seq::empty()
        } else {
            seq![g]
        }
    }
}

/// The least lower limit of `s`, the first one among equals.
pub open spec fn spec_min_lower<T: Ord>(s: Seq<Interval<T>>) -> IntervalLimit<T>
    decreases s.len(),
{
    if s.len() <= 1 {
        s[0].lower
    } else {
        let m = spec_min_lower(s.drop_last());
        if limit_lt(s.last().lower, m) {
            s.last().lower
        } else {
            m
        }
    }
}

/// The greatest upper limit of `s`, the first one among equals.
pub open spec fn spec_max_upper<T: Ord>(s: Seq<Interval<T>>) -> IntervalLimit<T>
    decreases s.len(),
{
    if s.len() <= 1 {
        s[0].upper
    } else {
        let m = spec_max_upper(s.drop_last());
        if limit_lt(m, s.last().upper) {
            s.last().upper
        } else {
            m
        }
    }
}

/// The smallest interval that encloses every interval of `s`.
pub open spec fn spec_extent<T: Ord>(s: Seq<Interval<T>>) -> Interval<T> {
    if s.len() == 1 {
        s[0]
    } else {
        let lo = spec_min_lower(s);
        let hi = spec_max_upper(s);
        spec_over(lo.value, lo.closed, hi.value, hi.closed)
    }
}

proof fn lemma_min_max<T: Ord>(s: Seq<Interval<T>>)
    requires
        lawful::<T>(),
        s.len() >= 1,
    ensures
        exists|k: int| 0 <= k < s.len() && spec_min_lower(s) == #[trigger] s[k].lower,
        exists|k: int| 0 <= k < s.len() && spec_max_upper(s) == #[trigger] s[k].upper,
        forall|k: int| 0 <= k < s.len() ==> limit_le(spec_min_lower(s), #[trigger] s[k].lower),
        forall|k: int| 0 <= k < s.len() ==> limit_le(#[trigger] s[k].upper, spec_max_upper(s)),
    decreases s.len(),
{
    lemma_limit_order::<T>();
    if s.len() > 1 {
        let t = s.drop_last();
        lemma_min_max(t);
        let n = s.len() - 1;
        let last = s[n];
        assert(last == s.last());
        let m = spec_min_lower(t);
        let x = spec_max_upper(t);
        let km = choose|k: int| 0 <= k < t.len() && m == #[trigger] t[k].lower;
        let kx = choose|k: int| 0 <= k < t.len() && x == #[trigger] t[k].upper;
        assert(t[km] == s[km]);
        assert(t[kx] == s[kx]);
        assert(limit_lt(last.lower, m) <==> limit_cmp(m, last.lower) == Ordering::Greater);
        assert(limit_lt(x, last.upper) <==> limit_cmp(last.upper, x) == Ordering::Greater);
        assert(limit_eqv(last.lower, last.lower));
        assert(limit_eqv(last.upper, last.upper));
        assert forall|k: int| 0 <= k < s.len() implies limit_le(spec_min_lower(s), #[trigger] s[k].lower) by {
            if k < n {
                assert(t[k] == s[k]);
                assert(limit_le(m, t[k].lower));
                if limit_lt(last.lower, m) {
                    assert(limit_lt(last.lower, s[k].lower));
                }
            }
        }
        assert forall|k: int| 0 <= k < s.len() implies limit_le(#[trigger] s[k].upper, spec_max_upper(s)) by {
            if k < n {
                assert(t[k] == s[k]);
                assert(limit_le(t[k].upper, x));
                if limit_lt(x, last.upper) {
                    assert(limit_lt(s[k].upper, last.upper));
                }
            }
        }
    } else {
        assert(s[0].lower == spec_min_lower(s));
        assert(s[0].upper == spec_max_upper(s));
        assert(limit_eqv(s[0].lower, s[0].lower));
        assert(limit_eqv(s[0].upper, s[0].upper));
    }
}

impl Ordered {
    pub open spec fn spec_inverse_lower(&self) -> bool {
        match *self {
            Ordered::UpperLower { inverse_lower, .. } => inverse_lower,
            Ordered::LowerUpper { inverse_lower, .. } => inverse_lower,
        }
    }

    pub open spec fn spec_inverse_upper(&self) -> bool {
        match *self {
            Ordered::UpperLower { inverse_upper, .. } => inverse_upper,
            Ordered::LowerUpper { inverse_upper, .. } => inverse_upper,
        }
    }

    /// Under `UpperLower` empty intervals come first, then the others by
    /// upper limit and, at equal upper limits, by lower limit. Under
    /// `LowerUpper` empty intervals come last, and lower limits are compared
    /// before upper ones.
    pub open spec fn spec_compare<T: Ord>(&self, e1: Interval<T>, e2: Interval<T>) -> Ordering {
        let upper = scaled(limit_cmp(e1.upper, e2.upper), self.spec_inverse_upper());
        let lower = scaled(limit_cmp(e1.lower, e2.lower), self.spec_inverse_lower());
        if e1.spec_is_empty() && e2.spec_is_empty() {
            Ordering::Equal
        } else if self is UpperLower {
            if e1.spec_is_empty() {
                Ordering::Less
            } else if e2.spec_is_empty() {
                Ordering::Greater
            } else if upper != Ordering::Equal {
                upper
            } else {
                lower
            }
        } else {
            if e1.spec_is_empty() {
                Ordering::Greater
            } else if e2.spec_is_empty() {
                Ordering::Less
            } else if lower != Ordering::Equal {
                lower
            } else {
                upper
            }
        }
    }

    fn lower_factor(&self) -> (r: i8)
        ensures
            r == if self.spec_inverse_lower() { -1i8 } else { 1i8 },
    {
        match self {
            Ordered::UpperLower { inverse_lower, .. } => {
                if *inverse_lower {
                    -1
                } else {
                    1
                }
            },
            Ordered::LowerUpper { inverse_lower, .. } => {
                if *inverse_lower {
                    -1
                } else {
                    1
                }
            },
        }
    }

    fn upper_factor(&self) -> (r: i8)
        ensures
            r == if self.spec_inverse_upper() { -1i8 } else { 1i8 },
    {
        match self {
            Ordered::UpperLower { inverse_upper, .. } => {
                if *inverse_upper {
                    -1
                } else {
                    1
                }
            },
            Ordered::LowerUpper { inverse_upper, .. } => {
                if *inverse_upper {
                    -1
                } else {
                    1
                }
            },
        }
    }

    /// Compares two intervals under this policy.
    pub fn compare<T: Ord + Copy>(&self, e1: &Interval<T>, e2: &Interval<T>) -> (r: Ordering)
        requires
            lawful::<T>(),
        ensures
            r == self.spec_compare(*e1, *e2),
    {
        proof {
            lemma_order::<T>();
        }
        let empty1 = e1.is_empty();
        let empty2 = e2.is_empty();
        let upper_comparance = e1.upper.compare(&e2.upper);
        let lower_comparance = e1.lower.compare(&e2.lower);
        let upper_scaled = to_ordering(sign_of(upper_comparance) * self.upper_factor());
        let lower_scaled = to_ordering(sign_of(lower_comparance) * self.lower_factor());
        match self {
            Ordered::UpperLower { .. } => {
                if empty1 && empty2 {
                    Ordering::Equal
                } else if empty1 {
                    Ordering::Less
                } else if empty2 {
                    Ordering::Greater
                } else if !matches!(upper_comparance, Ordering::Equal) {
                    upper_scaled
                } else {
                    lower_scaled
                }
            },
            Ordered::LowerUpper { .. } => {
                if empty1 && empty2 {
                    Ordering::Equal
                } else if empty1 {
                    Ordering::Greater
                } else if empty2 {
                    Ordering::Less
                } else if !matches!(lower_comparance, Ordering::Equal) {
                    lower_scaled
                } else {
                    upper_scaled
                }
            },
        }
    }
}

fn sign_of(c: Ordering) -> (r: i8)
    ensures
        r == sign(c),
{
    match c {
        Ordering::Less => -1,
        Ordering::Equal => 0,
        Ordering::Greater => 1,
    }
}

/// The transitivity facts of an order, read on three comparisons `ab`,
/// `bc` and `ac` of elements `a`, `b` and `c`.
pub open spec fn trans_facts(ab: Ordering, bc: Ordering, ac: Ordering) -> bool {
    &&& (ab != Ordering::Greater && bc != Ordering::Greater ==> ac != Ordering::Greater)
    &&& (ab == Ordering::Less && bc != Ordering::Greater ==> ac == Ordering::Less)
    &&& (ab != Ordering::Greater && bc == Ordering::Less ==> ac == Ordering::Less)
    &&& (ab == Ordering::Equal && bc == Ordering::Equal ==> ac == Ordering::Equal)
}

/// The lexicographic combination of two comparisons.
pub open spec fn lex(first: Ordering, second: Ordering) -> Ordering {
    if first != Ordering::Equal {
        first
    } else {
        second
    }
}

proof fn lemma_lex_trans(
    f_ab: Ordering,
    f_bc: Ordering,
    f_ac: Ordering,
    s_ab: Ordering,
    s_bc: Ordering,
    s_ac: Ordering,
)
    requires
        trans_facts(f_ab, f_bc, f_ac),
        trans_facts(s_ab, s_bc, s_ac),
    ensures
        trans_facts(lex(f_ab, s_ab), lex(f_bc, s_bc), lex(f_ac, s_ac)),
{
}

proof fn lemma_scaled_trans<T: Ord>(
    x: crate::interval_limit::IntervalLimit<T>,
    y: crate::interval_limit::IntervalLimit<T>,
    z: crate::interval_limit::IntervalLimit<T>,
    inverse: bool,
)
    requires
        lawful::<T>(),
    ensures
        trans_facts(
            scaled(limit_cmp(x, y), inverse),
            scaled(limit_cmp(y, z), inverse),
            scaled(limit_cmp(x, z), inverse),
        ),
        scaled(limit_cmp(x, x), inverse) == Ordering::Equal,
        scaled(limit_cmp(x, y), inverse) == Ordering::Less <==> scaled(limit_cmp(y, x), inverse)
            == Ordering::Greater,
{
    lemma_limit_order::<T>();
    assert(limit_eqv(x, x));
    assert(limit_lt(x, y) <==> limit_cmp(y, x) == Ordering::Greater);
    assert(limit_lt(y, x) <==> limit_cmp(x, y) == Ordering::Greater);
    assert(limit_lt(y, z) <==> limit_cmp(z, y) == Ordering::Greater);
    assert(limit_lt(z, y) <==> limit_cmp(y, z) == Ordering::Greater);
    assert(limit_lt(x, z) <==> limit_cmp(z, x) == Ordering::Greater);
    assert(limit_lt(z, x) <==> limit_cmp(x, z) == Ordering::Greater);
    if limit_le(x, y) && limit_le(y, z) {
        assert(limit_le(x, z));
    }
    if limit_lt(x, y) && limit_le(y, z) {
        assert(limit_lt(x, z));
    }
    if limit_le(x, y) && limit_lt(y, z) {
        assert(limit_lt(x, z));
    }
    if limit_le(z, y) && limit_le(y, x) {
        assert(limit_le(z, x));
    }
    if limit_lt(z, y) && limit_le(y, x) {
        assert(limit_lt(z, x));
    }
    if limit_le(z, y) && limit_lt(y, x) {
        assert(limit_lt(z, x));
    }
    if limit_eqv(x, y) && limit_eqv(y, z) {
        assert(limit_eqv(x, z));
    }
}

proof fn lemma_compare_trans<T: Ord>(ord: Ordered, a: Interval<T>, b: Interval<T>, c: Interval<T>)
    requires
        lawful::<T>(),
    ensures
        trans_facts(ord.spec_compare(a, b), ord.spec_compare(b, c), ord.spec_compare(a, c)),
{
    let iu = ord.spec_inverse_upper();
    let il = ord.spec_inverse_lower();
    lemma_scaled_trans(a.upper, b.upper, c.upper, iu);
    lemma_scaled_trans(a.lower, b.lower, c.lower, il);
    let u_ab = scaled(limit_cmp(a.upper, b.upper), iu);
    let u_bc = scaled(limit_cmp(b.upper, c.upper), iu);
    let u_ac = scaled(limit_cmp(a.upper, c.upper), iu);
    let l_ab = scaled(limit_cmp(a.lower, b.lower), il);
    let l_bc = scaled(limit_cmp(b.lower, c.lower), il);
    let l_ac = scaled(limit_cmp(a.lower, c.lower), il);
    if ord is UpperLower {
        lemma_lex_trans(u_ab, u_bc, u_ac, l_ab, l_bc, l_ac);
    } else {
        lemma_lex_trans(l_ab, l_bc, l_ac, u_ab, u_bc, u_ac);
    }
}

/// Every policy orders intervals as a total preorder.
pub proof fn lemma_compare_order<T: Ord>(ord: Ordered)
    requires
        lawful::<T>(),
    ensures
        forall|a: Interval<T>| #[trigger] ord.spec_compare(a, a) == Ordering::Equal,
        forall|a: Interval<T>, b: Interval<T>|
            #[trigger] ord.spec_compare(a, b) == Ordering::Less <==> ord.spec_compare(b, a) == Ordering::Greater,
        forall|a: Interval<T>, b: Interval<T>, c: Interval<T>|
            #[trigger] ord.spec_compare(a, b) != Ordering::Greater && #[trigger] ord.spec_compare(b, c)
                != Ordering::Greater ==> ord.spec_compare(a, c) != Ordering::Greater,
        forall|a: Interval<T>, b: Interval<T>, c: Interval<T>|
            #[trigger] ord.spec_compare(a, b) == Ordering::Less && #[trigger] ord.spec_compare(b, c)
                != Ordering::Greater ==> ord.spec_compare(a, c) == Ordering::Less,
        forall|a: Interval<T>, b: Interval<T>, c: Interval<T>|
            #[trigger] ord.spec_compare(a, b) != Ordering::Greater && #[trigger] ord.spec_compare(b, c)
                == Ordering::Less ==> ord.spec_compare(a, c) == Ordering::Less,
{
    assert forall|a: Interval<T>| #[trigger] ord.spec_compare(a, a) == Ordering::Equal by {
        lemma_scaled_trans(a.upper, a.upper, a.upper, ord.spec_inverse_upper());
        lemma_scaled_trans(a.lower, a.lower, a.lower, ord.spec_inverse_lower());
    }
    assert forall|a: Interval<T>, b: Interval<T>|
        #[trigger] ord.spec_compare(a, b) == Ordering::Less <==> ord.spec_compare(b, a) == Ordering::Greater by {
        lemma_scaled_trans(a.upper, b.upper, a.upper, ord.spec_inverse_upper());
        lemma_scaled_trans(b.upper, a.upper, b.upper, ord.spec_inverse_upper());
        lemma_scaled_trans(a.lower, b.lower, a.lower, ord.spec_inverse_lower());
        lemma_scaled_trans(b.lower, a.lower, b.lower, ord.spec_inverse_lower());
    }
    assert forall|a: Interval<T>, b: Interval<T>, c: Interval<T>|
        #[trigger] ord.spec_compare(a, b) != Ordering::Greater && #[trigger] ord.spec_compare(b, c)
            != Ordering::Greater implies ord.spec_compare(a, c) != Ordering::Greater by {
        lemma_compare_trans(ord, a, b, c);
    }
    assert forall|a: Interval<T>, b: Interval<T>, c: Interval<T>|
        #[trigger] ord.spec_compare(a, b) == Ordering::Less && #[trigger] ord.spec_compare(b, c)
            != Ordering::Greater implies ord.spec_compare(a, c) == Ordering::Less by {
        lemma_compare_trans(ord, a, b, c);
    }
    assert forall|a: Interval<T>, b: Interval<T>, c: Interval<T>|
        #[trigger] ord.spec_compare(a, b) != Ordering::Greater && #[trigger] ord.spec_compare(b, c)
            == Ordering::Less implies ord.spec_compare(a, c) == Ordering::Less by {
        lemma_compare_trans(ord, a, b, c);
    }
}

/// A copy of `values` sorted by `ord`, built by insertion.
fn sorted_copy<T: Ord + Copy>(values: &Vec<Interval<T>>, ord: &Ordered) -> (r: Vec<Interval<T>>)
    requires
        lawful::<T>(),
    ensures
        r@.to_multiset() == values@.to_multiset(),
        sorted_by(*ord, r@),
{
    broadcast use vstd::seq_lib::group_to_multiset_ensures;

    let mut r: Vec<Interval<T>> = Vec::new();
    let mut i: usize = 0;
    while i < values.len()
        invariant
            i <= values@.len(),
            lawful::<T>(),
            sorted_by(*ord, r@),
            r@.to_multiset() == values@.subrange(0, i as int).to_multiset(),
        decreases values@.len() - i,
    {
        proof {
            lemma_compare_order::<T>(*ord);
        }
        let x = values[i];
        let mut pos: usize = 0;
        let mut found = false;
        while !found && pos < r.len()
            invariant
                pos <= r@.len(),
                lawful::<T>(),
                forall|k: int| 0 <= k < pos ==> ord.spec_compare(#[trigger] r@[k], x) != Ordering::Greater,
                found ==> pos < r@.len() && ord.spec_compare(r@[pos as int], x) == Ordering::Greater,
            decreases r@.len() - pos + if found { 0int } else { 1int },
        {
            if matches!(ord.compare(&r[pos], &x), Ordering::Greater) {
                found = true;
            } else {
                pos += 1;
            }
        }
        let ghost old_r = r@;
        r.insert(pos, x);
        proof {
            assert(r@ == old_r.insert(pos as int, x));
            assert forall|a: int, b: int| 0 <= a < b < r@.len() implies ord.spec_compare(
                r@[a],
                r@[b],
            ) != Ordering::Greater by {
                if b < pos {
                } else if a < pos && b == pos {
                } else if a < pos {
                    assert(r@[b] == old_r[b - 1]);
                    assert(ord.spec_compare(old_r[a], old_r[b - 1]) != Ordering::Greater);
                } else if a == pos {
                    assert(r@[b] == old_r[b - 1]);
                    assert(ord.spec_compare(old_r[pos as int], x) == Ordering::Greater);
                    assert(ord.spec_compare(x, old_r[pos as int]) == Ordering::Less);
                    if b - 1 > pos {
                        assert(ord.spec_compare(old_r[pos as int], old_r[b - 1]) != Ordering::Greater);
                    }
                } else {
                    assert(r@[a] == old_r[a - 1]);
                    assert(r@[b] == old_r[b - 1]);
                }
            }
            assert(values@.subrange(0, i as int + 1) =~= values@.subrange(0, i as int).push(x));
            vstd::seq_lib::to_multiset_insert(old_r, pos as int, x);
            vstd::seq_lib::to_multiset_build(values@.subrange(0, i as int), x);
        }
        i += 1;
    }
    proof {
        assert(values@.subrange(0, values@.len() as int) =~= values@);
    }
    r
}

/// A sequence of intervals, and the policy by which `iter` sorts it.
pub struct IntervalSeq<T> {
    pub intervals: Vec<Interval<T>>,
    pub ordered: Ordered,
}

impl<T: Ord> IntervalSeq<T> {
    /// Every interval of the sequence is well formed.
    pub open spec fn wf(&self) -> bool {
        all_wf(self.intervals@)
    }
}

impl<T: Ord + Copy> IntervalSeq<T> {
    /// Adds an interval at the end of this sequence.
    pub fn append(&mut self, value: &Interval<T>)
        ensures
            final(self).intervals@ == old(self).intervals@.push(*value),
            final(self).ordered == old(self).ordered,
    {
        self.intervals.push(*value);
    }

    /// Whether this sequence has no interval.
    pub fn is_empty(&self) -> (r: bool)
        ensures
            r == (self.intervals@.len() == 0),
    {
        self.intervals.is_empty()
    }

    /// A sequence with no interval.
    pub fn empty() -> (r: Self)
        ensures
            r.intervals@ == Seq::<Interval<T>>::empty(),
            r.ordered == default_order(),
    {
        let intervals: Vec<Interval<T>> = Vec::new();
        Self::new(intervals.as_slice())
    }

    /// A sequence of the given intervals, in that order.
    pub fn new(values: &[Interval<T>]) -> (r: Self)
        ensures
            r.intervals@ == values@,
            r.ordered == default_order(),
    {
        let mut intervals: Vec<Interval<T>> = Vec::new();
        let mut i: usize = 0;
        while i < values.len()
            invariant
                i <= values@.len(),
                intervals@ == values@.subrange(0, i as int),
            decreases values@.len() - i,
        {
            intervals.push(values[i]);
            i += 1;
            proof {
                assert(intervals@ =~= values@.subrange(0, i as int));
            }
        }
        proof {
            assert(values@.subrange(0, values@.len() as int) =~= values@);
        }
        IntervalSeq { intervals, ordered: Ordered::UpperLower { inverse_lower: false, inverse_upper: false } }
    }

    /// The smallest interval that encloses every interval of this sequence.
    pub fn extent(&self) -> (r: Interval<T>)
        requires
            lawful::<T>(),
            self.wf(),
            self.intervals@.len() > 0,
        ensures
            r == spec_extent(self.intervals@),
            r.wf(),
            forall|k: int|
                0 <= k < self.intervals@.len() ==> limit_le(r.lower, #[trigger] self.intervals@[k].lower)
                    && limit_le(self.intervals@[k].upper, r.upper),
    {
        proof {
            lemma_order::<T>();
            lemma_limit_order::<T>();
        }
        let first = self.intervals[0];
        let n = self.intervals.len();
        if n == 1 {
            proof {
                assert(self.intervals@[0].wf());
                assert(limit_eqv(first.lower, first.lower));
                assert(limit_eqv(first.upper, first.upper));
            }
            first
        } else {
            let mut lower = first.lower;
            let mut upper = first.upper;
            let mut i: usize = 1;
            while i < n
                invariant
                    1 <= i <= n,
                    n == self.intervals@.len(),
                    lawful::<T>(),
                    T::obeys_cmp_spec(),
                    lower == spec_min_lower(self.intervals@.subrange(0, i as int)),
                    upper == spec_max_upper(self.intervals@.subrange(0, i as int)),
                decreases n - i,
            {
                let e = self.intervals[i];
                proof {
                    let t = self.intervals@.subrange(0, i as int + 1);
                    assert(t.drop_last() =~= self.intervals@.subrange(0, i as int));
                    assert(t.last() == e);
                }
                if matches!(e.lower.compare(&lower), Ordering::Less) {
                    lower = e.lower;
                }
                if matches!(upper.compare(&e.upper), Ordering::Less) {
                    upper = e.upper;
                }
                i += 1;
            }
            proof {
                let s = self.intervals@;
                assert(s.subrange(0, n as int) =~= s);
                lemma_min_max(s);
                assert(limit_le(lower, s[0].lower));
                assert(limit_le(s[0].upper, upper));
                assert(s[0].wf());
                let kl = choose|k: int| 0 <= k < s.len() && spec_min_lower(s) == #[trigger] s[k].lower;
                let ku = choose|k: int| 0 <= k < s.len() && spec_max_upper(s) == #[trigger] s[k].upper;
                assert(s[kl].wf());
                assert(s[ku].wf());
            }
            let r = first.new_of_same_type(lower.value, lower.closed, upper.value, upper.closed);
            proof {
                let s = self.intervals@;
                assert(limit_le(r.lower, lower));
                assert(limit_le(upper, r.upper));
                assert forall|k: int| 0 <= k < s.len() implies limit_le(r.lower, #[trigger] s[k].lower)
                    && limit_le(s[k].upper, r.upper) by {
                    assert(limit_le(lower, s[k].lower));
                    assert(limit_le(s[k].upper, upper));
                }
            }
            r
        }
    }

    /// The non-empty gaps between neighbouring intervals, in the present order.
    pub fn gap(&self) -> (r: Self)
        requires
            lawful::<T>(),
            self.wf(),
        ensures
            r.intervals@ == spec_pairwise_gaps(self.intervals@),
            r.ordered == default_order(),
    {
        let n = self.intervals.len();
        let mut values: Vec<Interval<T>> = Vec::new();
        if n < 2 {
            return Self::new(values.as_slice());
        }
        let mut i: usize = 1;
        while i < n
            invariant
                1 <= i <= n,
                n == self.intervals@.len(),
                lawful::<T>(),
                self.wf(),
                values@ == spec_pairwise_gaps(self.intervals@.subrange(0, i as int)),
            decreases n - i,
        {
            let left = self.intervals[i - 1];
            let right = self.intervals[i];
            proof {
                let t = self.intervals@.subrange(0, i as int + 1);
                assert(t.drop_last() =~= self.intervals@.subrange(0, i as int));
                assert(t[t.len() - 2] == left);
                assert(t[t.len() - 1] == right);
                assert(self.intervals@[i - 1].wf());
                assert(self.intervals@[i as int].wf());
            }
            let g = left.gap(&right);
            if !g.is_empty() {
                values.push(g);
            }
            i += 1;
            proof {
                assert(values@ =~= spec_pairwise_gaps(self.intervals@.subrange(0, i as int)));
            }
        }
        proof {
            assert(self.intervals@.subrange(0, n as int) =~= self.intervals@);
        }
        Self::new(values.as_slice())
    }

    /// The non-empty intersections of neighbouring intervals, in the present order.
    pub fn intersections(&self) -> (r: Self)
        requires
            lawful::<T>(),
            self.wf(),
        ensures
            r.intervals@ == spec_pairwise_intersections(self.intervals@),
            r.ordered == default_order(),
    {
        let n = self.intervals.len();
        let mut values: Vec<Interval<T>> = Vec::new();
        if n < 2 {
            return Self::new(values.as_slice());
        }
        let mut i: usize = 1;
        while i < n
            invariant
                1 <= i <= n,
                n == self.intervals@.len(),
                lawful::<T>(),
                self.wf(),
                values@ == spec_pairwise_intersections(self.intervals@.subrange(0, i as int)),
            decreases n - i,
        {
            let left = self.intervals[i - 1];
            let right = self.intervals[i];
            proof {
                let t = self.intervals@.subrange(0, i as int + 1);
                assert(t.drop_last() =~= self.intervals@.subrange(0, i as int));
                assert(t[t.len() - 2] == left);
                assert(t[t.len() - 1] == right);
                assert(self.intervals@[i - 1].wf());
                assert(self.intervals@[i as int].wf());
            }
            let g = left.intersect(&right);
            if !g.is_empty() {
                values.push(g);
            }
            i += 1;
            proof {
                assert(values@ =~= spec_pairwise_intersections(self.intervals@.subrange(0, i as int)));
            }
        }
        proof {
            assert(self.intervals@.subrange(0, n as int) =~= self.intervals@);
        }
        Self::new(values.as_slice())
    }

    /// Sorts this sequence by its policy and returns an iterator over it.
    pub fn iter(&mut self) -> (r: std::slice::Iter<'_, Interval<T>>)
        requires
            lawful::<T>(),
        ensures
            final(self).ordered == old(self).ordered,
            final(self).intervals@.to_multiset() == old(self).intervals@.to_multiset(),
            sorted_by(old(self).ordered, final(self).intervals@),
            old(self).wf() ==> final(self).wf(),
            vstd::std_specs::slice::into_iter_elts(r) == final(self).intervals@,
    {
        let l = sorted_copy(&self.intervals, &self.ordered);
        proof {
            broadcast use vstd::seq_lib::group_to_multiset_ensures;

            if all_wf(self.intervals@) {
                assert forall|k: int| 0 <= k < l@.len() implies (#[trigger] l@[k]).wf() by {
                    assert(l@.contains(l@[k]));
                    assert(l@.to_multiset().count(l@[k]) > 0);
                    assert(self.intervals@.to_multiset().count(l@[k]) > 0);
                    assert(self.intervals@.contains(l@[k]));
                }
            }
        }
        self.intervals = l;
        let it = self.intervals.as_slice().iter();
        proof {
            broadcast use vstd::std_specs::slice::axiom_spec_slice_iter;

            assert(vstd::std_specs::slice::into_iter_elts(it) =~= self.intervals@);
        }
        it
    }

    /// The number of intervals.
    pub fn len(&self) -> (r: usize)
        ensures
            r == self.intervals@.len(),
    {
        self.intervals.len()
    }

    /// The interval at `idx`, if there is one.
    pub fn get(&self, idx: usize) -> (r: Option<&Interval<T>>)
        ensures
            idx < self.intervals@.len() ==> r == Some(&self.intervals@[idx as int]),
            idx >= self.intervals@.len() ==> r is None,
    {
        if idx < self.intervals.len() {
            Some(&self.intervals[idx])
        } else {
            None
        }
    }
}

} // verus!
