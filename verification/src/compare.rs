//! Equality and order of shared slices, which are those of their values.
use crate::allocator::IAlloc;
use crate::heap::Heap;
use crate::slice::ArcSlice;
use core::cmp::Ordering;
use vstd::prelude::*;
use vstd::std_specs::cmp::{OrdSpec, PartialEqSpec, PartialOrdSpec};

verus! {

/// Whether two sequences have the same length, and equal values in each place.
pub open spec fn same_values<T: PartialEq>(a: Seq<T>, b: Seq<T>) -> bool {
    &&& a.len() == b.len()
    &&& forall|i: int| 0 <= i < a.len() ==> (#[trigger] a[i]).eq_spec(&b[i])
}

/// Whether comparing `a` and `b` value by value, as long as they are equal, may end in `equal`.
pub open spec fn may_equal<T: PartialEq>(a: Seq<T>, b: Seq<T>, equal: bool) -> bool {
    if a.len() != b.len() {
        !equal
    } else if equal {
        forall|i: int| 0 <= i < a.len() ==> call_ensures(T::eq, (&#[trigger] a[i], &b[i]), true)
    } else {
        exists|i: int|
            {
                &&& 0 <= i < a.len()
                &&& call_ensures(T::eq, (&#[trigger] a[i], &b[i]), false)
                &&& forall|j: int|
                    0 <= j < i ==> call_ensures(T::eq, (&#[trigger] a[j], &b[j]), true)
            }
    }
}

/// How two lengths compare.
pub open spec fn length_order(a: nat, b: nat) -> Ordering {
    if a < b {
        Ordering::Less
    } else if a == b {
        Ordering::Equal
    } else {
        Ordering::Greater
    }
}

/// The lexicographic order of what `a` and `b` hold from place `i` on: the first two values that
/// are not equal decide, and if there are none the lengths do.
pub open spec fn order_from<T: Ord>(a: Seq<T>, b: Seq<T>, i: int) -> Ordering
    decreases a.len() - i,
{
    if 0 <= i < a.len() && i < b.len() {
        match a[i].cmp_spec(&b[i]) {
            Ordering::Equal => order_from(a, b, i + 1),
            other => other,
        }
    } else {
        length_order(a.len(), b.len())
    }
}

/// [`order_from`], where two values may have no order. Then neither have the sequences.
pub open spec fn partial_order_from<T: PartialOrd>(
    a: Seq<T>,
    b: Seq<T>,
    i: int,
) -> Option<Ordering>
    decreases a.len() - i,
{
    if 0 <= i < a.len() && i < b.len() {
        match a[i].partial_cmp_spec(&b[i]) {
            Some(Ordering::Equal) => partial_order_from(a, b, i + 1),
            other => other,
        }
    } else {
        Some(length_order(a.len(), b.len()))
    }
}

/// Whether comparing `a` and `b` value by value, as long as they are equal, may end in `order`.
pub open spec fn may_order<T: Ord>(a: Seq<T>, b: Seq<T>, order: Ordering) -> bool {
    ||| exists|i: int|
        {
            &&& 0 <= i < a.len() && i < b.len()
            &&& order != Ordering::Equal
            &&& call_ensures(T::cmp, (&#[trigger] a[i], &b[i]), order)
            &&& forall|j: int|
                0 <= j < i ==> call_ensures(T::cmp, (&#[trigger] a[j], &b[j]), Ordering::Equal)
        }
    ||| {
        &&& order == length_order(a.len(), b.len())
        &&& forall|j: int|
            0 <= j < a.len() && j < b.len() ==> call_ensures(
                T::cmp,
                (&#[trigger] a[j], &b[j]),
                Ordering::Equal,
            )
    }
}

/// Whether comparing `a` and `b` value by value, as long as they are equal, may end in `order`.
pub open spec fn may_partially_order<T: PartialOrd>(
    a: Seq<T>,
    b: Seq<T>,
    order: Option<Ordering>,
) -> bool {
    ||| exists|i: int|
        {
            &&& 0 <= i < a.len() && i < b.len()
            &&& order != Some(Ordering::Equal)
            &&& call_ensures(T::partial_cmp, (&#[trigger] a[i], &b[i]), order)
            &&& forall|j: int|
                0 <= j < i ==> call_ensures(
                    T::partial_cmp,
                    (&#[trigger] a[j], &b[j]),
                    Some(Ordering::Equal),
                )
        }
    ||| {
        &&& order == Some(length_order(a.len(), b.len()))
        &&& forall|j: int|
            0 <= j < a.len() && j < b.len() ==> call_ensures(
                T::partial_cmp,
                (&#[trigger] a[j], &b[j]),
                Some(Ordering::Equal),
            )
    }
}

/// How two lengths compare.
fn order_lengths(a: usize, b: usize) -> (order: Ordering)
    ensures
        a < b ==> order == Ordering::Less,
        a == b ==> order == Ordering::Equal,
        a > b ==> order == Ordering::Greater,
{
    if a < b {
        Ordering::Less
    } else if a == b {
        Ordering::Equal
    } else {
        Ordering::Greater
    }
}

impl<T, Alloc: IAlloc> ArcSlice<T, Alloc> {
    /// Whether two slices have equal values.
    pub fn eq(&self, heap: &Heap<T, Alloc>, other: &Self, other_heap: &Heap<T, Alloc>) -> (equal:
        bool) where T: PartialEq
        requires
            self.valid(heap@),
            other.valid(other_heap@),
        ensures
            may_equal(self.values(heap@), other.values(other_heap@), equal),
            T::obeys_eq_spec() ==> equal == same_values(
                self.values(heap@),
                other.values(other_heap@),
            ),
    {
        let a = self.as_slice(heap);
        let b = other.as_slice(other_heap);
        if a.len() != b.len() {
            return false;
        }
        let mut i: usize = 0;
        while i < a.len()
            invariant
                i <= a@.len() == b@.len(),
                a@ == self.values(heap@),
                b@ == other.values(other_heap@),
                forall|j: int|
                    0 <= j < i ==> call_ensures(T::eq, (&#[trigger] a@[j], &b@[j]), true),
                T::obeys_eq_spec() ==> forall|j: int|
                    0 <= j < i ==> (#[trigger] a@[j]).eq_spec(&b@[j]),
            decreases a@.len() - i,
        {
            if !a[i].eq(&b[i]) {
                return false;
            }
            i += 1;
        }
        true
    }

    /// The order of two slices, which is the lexicographic order of their values.
    pub fn cmp(&self, heap: &Heap<T, Alloc>, other: &Self, other_heap: &Heap<T, Alloc>) -> (order:
        Ordering) where T: Ord
        requires
            self.valid(heap@),
            other.valid(other_heap@),
        ensures
            may_order(self.values(heap@), other.values(other_heap@), order),
            T::obeys_cmp_spec() ==> order == order_from(
                self.values(heap@),
                other.values(other_heap@),
                0,
            ),
    {
        let a = self.as_slice(heap);
        let b = other.as_slice(other_heap);
        let mut i: usize = 0;
        let ghost mut k: int = 0;
        while i < a.len() && i < b.len()
            invariant
                k == i,
                i <= a@.len(),
                i <= b@.len(),
                a@ == self.values(heap@),
                b@ == other.values(other_heap@),
                forall|j: int|
                    0 <= j < i ==> call_ensures(
                        T::cmp,
                        (&#[trigger] a@[j], &b@[j]),
                        Ordering::Equal,
                    ),
                T::obeys_cmp_spec() ==> order_from(a@, b@, 0) == order_from(a@, b@, k),
            decreases a@.len() - i,
        {
            match a[i].cmp(&b[i]) {
                Ordering::Equal => {},
                order => {
                    assert(call_ensures(T::cmp, (&a@[k], &b@[k]), order));
                    return order;
                },
            }
            i += 1;
            proof {
                k = k + 1;
            }
        }
        order_lengths(a.len(), b.len())
    }

    /// The order of two slices, if they have one: the lexicographic order of their values.
    pub fn partial_cmp(
        &self,
        heap: &Heap<T, Alloc>,
        other: &Self,
        other_heap: &Heap<T, Alloc>,
    ) -> (order: Option<Ordering>) where T: PartialOrd
        requires
            self.valid(heap@),
            other.valid(other_heap@),
        ensures
            may_partially_order(self.values(heap@), other.values(other_heap@), order),
            T::obeys_partial_cmp_spec() ==> order == partial_order_from(
                self.values(heap@),
                other.values(other_heap@),
                0,
            ),
    {
        let a = self.as_slice(heap);
        let b = other.as_slice(other_heap);
        let mut i: usize = 0;
        let ghost mut k: int = 0;
        while i < a.len() && i < b.len()
            invariant
                k == i,
                i <= a@.len(),
                i <= b@.len(),
                a@ == self.values(heap@),
                b@ == other.values(other_heap@),
                forall|j: int|
                    0 <= j < i ==> call_ensures(
                        T::partial_cmp,
                        (&#[trigger] a@[j], &b@[j]),
                        Some(Ordering::Equal),
                    ),
                T::obeys_partial_cmp_spec() ==> partial_order_from(a@, b@, 0)
                    == partial_order_from(a@, b@, k),
            decreases a@.len() - i,
        {
            match a[i].partial_cmp(&b[i]) {
                Some(Ordering::Equal) => {},
                order => {
                    assert(call_ensures(T::partial_cmp, (&a@[k], &b@[k]), order));
                    return order;
                },
            }
            i += 1;
            proof {
                k = k + 1;
            }
        }
        Some(order_lengths(a.len(), b.len()))
    }
}

/// What [`law_order_agrees_with_equality`] says, from place `i` on.
proof fn lemma_order_agrees_from<T: Ord>(a: Seq<T>, b: Seq<T>, i: int)
    requires
        vstd::laws_cmp::obeys_cmp::<T>(),
        0 <= i,
    ensures
        order_from(a, b, i) == Ordering::Equal <==> {
            &&& a.len() == b.len()
            &&& forall|j: int| i <= j < a.len() ==> (#[trigger] a[j]).eq_spec(&b[j])
        },
        partial_order_from(a, b, i) == Some(order_from(a, b, i)),
        order_from(a, b, i) == Ordering::Less <==> order_from(b, a, i) == Ordering::Greater,
    decreases a.len() - i,
{
    reveal(vstd::laws_cmp::obeys_partial_cmp_spec_properties);
    reveal(vstd::laws_cmp::obeys_cmp_partial_ord);
    reveal(vstd::laws_cmp::obeys_cmp_ord);
    if i < a.len() && i < b.len() {
        lemma_order_agrees_from(a, b, i + 1);
        assert(a[i].partial_cmp_spec(&b[i]) == Some(a[i].cmp_spec(&b[i])));
        assert(b[i].partial_cmp_spec(&a[i]) == Some(b[i].cmp_spec(&a[i])));
        reveal(vstd::laws_eq::obeys_eq_spec_properties);
        assert(a[i].eq_spec(&b[i]) <==> b[i].eq_spec(&a[i]));
    }
}

/// Where the values have a lawful order, the order of two sequences agrees with their equality:
/// they are in the order `Equal` exactly if they have equal values, the partial order is the order,
/// and turning them round turns the order round.
pub proof fn law_order_agrees_with_equality<T: Ord>(a: Seq<T>, b: Seq<T>)
    requires
        vstd::laws_cmp::obeys_cmp::<T>(),
    ensures
        order_from(a, b, 0) == Ordering::Equal <==> same_values(a, b),
        partial_order_from(a, b, 0) == Some(order_from(a, b, 0)),
        order_from(a, b, 0) == Ordering::Less <==> order_from(b, a, 0) == Ordering::Greater,
{
    lemma_order_agrees_from(a, b, 0);
}

/// What [`law_prefix_is_less`] says, from place `i` on.
proof fn lemma_prefix_is_less_from<T: Ord>(a: Seq<T>, b: Seq<T>, i: int)
    requires
        vstd::laws_cmp::obeys_cmp::<T>(),
        a.len() < b.len(),
        forall|j: int| 0 <= j < a.len() ==> (#[trigger] a[j]).eq_spec(&b[j]),
        0 <= i,
    ensures
        order_from(a, b, i) == Ordering::Less,
    decreases a.len() - i,
{
    reveal(vstd::laws_cmp::obeys_cmp_partial_ord);
    reveal(vstd::laws_cmp::obeys_cmp_ord);
    if i < a.len() {
        lemma_prefix_is_less_from(a, b, i + 1);
        assert(a[i].partial_cmp_spec(&b[i]) == Some(a[i].cmp_spec(&b[i])));
    }
}

/// Where the values have a lawful order, a sequence is less than one that goes on after equal
/// values.
pub proof fn law_prefix_is_less<T: Ord>(a: Seq<T>, b: Seq<T>)
    requires
        vstd::laws_cmp::obeys_cmp::<T>(),
        a.len() < b.len(),
        forall|j: int| 0 <= j < a.len() ==> (#[trigger] a[j]).eq_spec(&b[j]),
    ensures
        order_from(a, b, 0) == Ordering::Less,
{
    lemma_prefix_is_less_from(a, b, 0);
}

/// Where the equality of the values is symmetric and transitive, that of sequences is too.
pub proof fn law_equality_is_lawful<T: PartialEq>(a: Seq<T>, b: Seq<T>, c: Seq<T>)
    requires
        vstd::laws_eq::obeys_eq::<T>(),
    ensures
        same_values(a, b) <==> same_values(b, a),
        same_values(a, b) && same_values(b, c) ==> same_values(a, c),
{
    reveal(vstd::laws_eq::obeys_eq_spec_properties);
    if same_values(a, b) {
        assert forall|i: int| 0 <= i < b.len() implies (#[trigger] b[i]).eq_spec(&a[i]) by {
            assert(a[i].eq_spec(&b[i]));
        }
    }
    if same_values(b, a) {
        assert forall|i: int| 0 <= i < a.len() implies (#[trigger] a[i]).eq_spec(&b[i]) by {
            assert(b[i].eq_spec(&a[i]));
        }
    }
    if same_values(a, b) && same_values(b, c) {
        assert forall|i: int| 0 <= i < a.len() implies (#[trigger] a[i]).eq_spec(&c[i]) by {
            assert(a[i].eq_spec(&b[i]));
            assert(b[i].eq_spec(&c[i]));
        }
    }
}

/// What [`law_order_is_transitive`] says, from place `i` on.
proof fn lemma_order_is_transitive_from<T: Ord>(a: Seq<T>, b: Seq<T>, c: Seq<T>, i: int)
    requires
        vstd::laws_cmp::obeys_cmp::<T>(),
        0 <= i,
        order_from(a, b, i) == Ordering::Less,
        order_from(b, c, i) == Ordering::Less,
    ensures
        order_from(a, c, i) == Ordering::Less,
    decreases a.len() - i,
{
    reveal(vstd::laws_cmp::obeys_partial_cmp_spec_properties);
    reveal(vstd::laws_cmp::obeys_cmp_partial_ord);
    reveal(vstd::laws_cmp::obeys_cmp_ord);
    reveal(vstd::laws_eq::obeys_eq_spec_properties);
    if i < a.len() && i < b.len() && i < c.len() {
        let (x, y, z) = (a[i], b[i], c[i]);
        assert(x.partial_cmp_spec(&y) == Some(x.cmp_spec(&y)));
        assert(y.partial_cmp_spec(&z) == Some(y.cmp_spec(&z)));
        assert(x.partial_cmp_spec(&z) == Some(x.cmp_spec(&z)));
        assert(z.partial_cmp_spec(&x) == Some(z.cmp_spec(&x)));
        assert(y.partial_cmp_spec(&x) == Some(y.cmp_spec(&x)));
        assert(z.partial_cmp_spec(&y) == Some(z.cmp_spec(&y)));
        if x.cmp_spec(&y) == Ordering::Equal && y.cmp_spec(&z) == Ordering::Equal {
            lemma_order_is_transitive_from(a, b, c, i + 1);
        }
    }
}

/// Where the values have a lawful order, the order of sequences is transitive.
pub proof fn law_order_is_transitive<T: Ord>(a: Seq<T>, b: Seq<T>, c: Seq<T>)
    requires
        vstd::laws_cmp::obeys_cmp::<T>(),
        order_from(a, b, 0) == Ordering::Less,
        order_from(b, c, 0) == Ordering::Less,
    ensures
        order_from(a, c, 0) == Ordering::Less,
{
    lemma_order_is_transitive_from(a, b, c, 0);
}

/// The smaller of two lengths.
spec fn shorter(a: nat, b: nat) -> int {
    if a < b {
        a as int
    } else {
        b as int
    }
}

/// Where values before place `k` are in the order `Equal`, only the places from `k` on matter.
proof fn lemma_order_after_equal<T: Ord>(a: Seq<T>, b: Seq<T>, i: int, k: int)
    requires
        0 <= i <= k <= a.len(),
        k <= b.len(),
        forall|j: int| 0 <= j < k ==> (#[trigger] a[j]).cmp_spec(&b[j]) == Ordering::Equal,
    ensures
        order_from(a, b, i) == order_from(a, b, k),
    decreases k - i,
{
    if i < k {
        lemma_order_after_equal(a, b, i + 1, k);
        assert(a[i].cmp_spec(&b[i]) == Ordering::Equal);
    }
}

/// [`lemma_order_after_equal`], for the partial order.
proof fn lemma_partial_order_after_equal<T: PartialOrd>(a: Seq<T>, b: Seq<T>, i: int, k: int)
    requires
        0 <= i <= k <= a.len(),
        k <= b.len(),
        forall|j: int|
            0 <= j < k ==> (#[trigger] a[j]).partial_cmp_spec(&b[j]) == Some(Ordering::Equal),
    ensures
        partial_order_from(a, b, i) == partial_order_from(a, b, k),
    decreases k - i,
{
    if i < k {
        lemma_partial_order_after_equal(a, b, i + 1, k);
        assert(a[i].partial_cmp_spec(&b[i]) == Some(Ordering::Equal));
    }
}

/// The first difference decides: where two sequences agree before place `k`, and the value of the
/// first there is less (or greater) than that of the second, so is the sequence.
pub proof fn law_first_difference_decides<T: Ord>(a: Seq<T>, b: Seq<T>, k: int)
    requires
        0 <= k < a.len(),
        k < b.len(),
        forall|j: int| 0 <= j < k ==> (#[trigger] a[j]).cmp_spec(&b[j]) == Ordering::Equal,
        a[k].cmp_spec(&b[k]) != Ordering::Equal,
    ensures
        a[k].cmp_spec(&b[k]) == Ordering::Less ==> order_from(a, b, 0) == Ordering::Less,
        a[k].cmp_spec(&b[k]) == Ordering::Greater ==> order_from(a, b, 0) == Ordering::Greater,
{
    lemma_order_after_equal(a, b, 0, k);
}

/// Where two sequences agree as far as both go, their lengths decide: the shorter one is less.
pub proof fn law_lengths_decide_last<T: Ord>(a: Seq<T>, b: Seq<T>)
    requires
        forall|j: int|
            0 <= j < a.len() && j < b.len() ==> (#[trigger] a[j]).cmp_spec(&b[j])
                == Ordering::Equal,
    ensures
        a.len() < b.len() ==> order_from(a, b, 0) == Ordering::Less,
        a.len() == b.len() ==> order_from(a, b, 0) == Ordering::Equal,
        a.len() > b.len() ==> order_from(a, b, 0) == Ordering::Greater,
{
    lemma_order_after_equal(a, b, 0, shorter(a.len(), b.len()));
}

/// The first difference decides the partial order too: where two sequences agree before place `k`,
/// and the values there are less, greater or without an order, so are the sequences.
pub proof fn law_first_difference_decides_partially<T: PartialOrd>(a: Seq<T>, b: Seq<T>, k: int)
    requires
        0 <= k < a.len(),
        k < b.len(),
        forall|j: int|
            0 <= j < k ==> (#[trigger] a[j]).partial_cmp_spec(&b[j]) == Some(Ordering::Equal),
        a[k].partial_cmp_spec(&b[k]) != Some(Ordering::Equal),
    ensures
        a[k].partial_cmp_spec(&b[k]) == Some(Ordering::Less) ==> partial_order_from(a, b, 0)
            == Some(Ordering::Less),
        a[k].partial_cmp_spec(&b[k]) == Some(Ordering::Greater) ==> partial_order_from(a, b, 0)
            == Some(Ordering::Greater),
        a[k].partial_cmp_spec(&b[k]) == None::<Ordering> ==> partial_order_from(a, b, 0)
            == None::<Ordering>,
{
    lemma_partial_order_after_equal(a, b, 0, k);
}

/// Where two sequences agree as far as both go, their lengths decide the partial order.
pub proof fn law_lengths_decide_partially_last<T: PartialOrd>(a: Seq<T>, b: Seq<T>)
    requires
        forall|j: int|
            0 <= j < a.len() && j < b.len() ==> (#[trigger] a[j]).partial_cmp_spec(&b[j])
                == Some(Ordering::Equal),
    ensures
        a.len() < b.len() ==> partial_order_from(a, b, 0) == Some(Ordering::Less),
        a.len() == b.len() ==> partial_order_from(a, b, 0) == Some(Ordering::Equal),
        a.len() > b.len() ==> partial_order_from(a, b, 0) == Some(Ordering::Greater),
{
    lemma_partial_order_after_equal(a, b, 0, shorter(a.len(), b.len()));
}

/// Whatever the order of the values is like: where comparing them can only come to `Equal` before
/// place `k`, and only to `order` there, comparing the sequences comes to `order`.
pub proof fn law_comparison_ends_at_first_difference<T: Ord>(
    a: Seq<T>,
    b: Seq<T>,
    k: int,
    order: Ordering,
    result: Ordering,
)
    requires
        may_order(a, b, result),
        0 <= k < a.len(),
        k < b.len(),
        order != Ordering::Equal,
        forall|j: int, o: Ordering|
            0 <= j < k && #[trigger] call_ensures(T::cmp, (&a[j], &b[j]), o) ==> o
                == Ordering::Equal,
        forall|o: Ordering| #[trigger] call_ensures(T::cmp, (&a[k], &b[k]), o) ==> o == order,
    ensures
        result == order,
{
    if exists|i: int|
        {
            &&& 0 <= i < a.len() && i < b.len()
            &&& result != Ordering::Equal
            &&& call_ensures(T::cmp, (&#[trigger] a[i], &b[i]), result)
            &&& forall|j: int|
                0 <= j < i ==> call_ensures(T::cmp, (&#[trigger] a[j], &b[j]), Ordering::Equal)
        } {
        let i = choose|i: int|
            {
                &&& 0 <= i < a.len() && i < b.len()
                &&& result != Ordering::Equal
                &&& call_ensures(T::cmp, (&#[trigger] a[i], &b[i]), result)
                &&& forall|j: int|
                    0 <= j < i ==> call_ensures(T::cmp, (&#[trigger] a[j], &b[j]), Ordering::Equal)
            };
        if k < i {
            assert(call_ensures(T::cmp, (&a[k], &b[k]), Ordering::Equal));
        }
    } else {
        assert(call_ensures(T::cmp, (&a[k], &b[k]), Ordering::Equal));
    }
}

/// Whatever the order of the values is like: where comparing them can only come to `Equal`, as far
/// as both sequences go, the shorter one is less.
pub proof fn law_comparison_ends_with_lengths<T: Ord>(a: Seq<T>, b: Seq<T>, result: Ordering)
    requires
        may_order(a, b, result),
        forall|j: int, o: Ordering|
            0 <= j < a.len() && j < b.len() && #[trigger] call_ensures(T::cmp, (&a[j], &b[j]), o)
                ==> o == Ordering::Equal,
    ensures
        a.len() < b.len() ==> result == Ordering::Less,
        a.len() == b.len() ==> result == Ordering::Equal,
        a.len() > b.len() ==> result == Ordering::Greater,
{
}

/// [`law_comparison_ends_at_first_difference`], for the partial order.
pub proof fn law_partial_comparison_ends_at_first_difference<T: PartialOrd>(
    a: Seq<T>,
    b: Seq<T>,
    k: int,
    order: Option<Ordering>,
    result: Option<Ordering>,
)
    requires
        may_partially_order(a, b, result),
        0 <= k < a.len(),
        k < b.len(),
        order != Some(Ordering::Equal),
        forall|j: int, o: Option<Ordering>|
            0 <= j < k && #[trigger] call_ensures(T::partial_cmp, (&a[j], &b[j]), o) ==> o == Some(
                Ordering::Equal,
            ),
        forall|o: Option<Ordering>| #[trigger]
            call_ensures(T::partial_cmp, (&a[k], &b[k]), o) ==> o == order,
    ensures
        result == order,
{
    if exists|i: int|
        {
            &&& 0 <= i < a.len() && i < b.len()
            &&& result != Some(Ordering::Equal)
            &&& call_ensures(T::partial_cmp, (&#[trigger] a[i], &b[i]), result)
            &&& forall|j: int|
                0 <= j < i ==> call_ensures(
                    T::partial_cmp,
                    (&#[trigger] a[j], &b[j]),
                    Some(Ordering::Equal),
                )
        } {
        let i = choose|i: int|
            {
                &&& 0 <= i < a.len() && i < b.len()
                &&& result != Some(Ordering::Equal)
                &&& call_ensures(T::partial_cmp, (&#[trigger] a[i], &b[i]), result)
                &&& forall|j: int|
                    0 <= j < i ==> call_ensures(
                        T::partial_cmp,
                        (&#[trigger] a[j], &b[j]),
                        Some(Ordering::Equal),
                    )
            };
        if k < i {
            assert(call_ensures(T::partial_cmp, (&a[k], &b[k]), Some(Ordering::Equal)));
        }
    } else {
        assert(call_ensures(T::partial_cmp, (&a[k], &b[k]), Some(Ordering::Equal)));
    }
}

/// [`law_comparison_ends_with_lengths`], for the partial order.
pub proof fn law_partial_comparison_ends_with_lengths<T: PartialOrd>(
    a: Seq<T>,
    b: Seq<T>,
    result: Option<Ordering>,
)
    requires
        may_partially_order(a, b, result),
        forall|j: int, o: Option<Ordering>|
            0 <= j < a.len() && j < b.len() && #[trigger] call_ensures(
                T::partial_cmp,
                (&a[j], &b[j]),
                o,
            ) ==> o == Some(Ordering::Equal),
    ensures
        a.len() < b.len() ==> result == Some(Ordering::Less),
        a.len() == b.len() ==> result == Some(Ordering::Equal),
        a.len() > b.len() ==> result == Some(Ordering::Greater),
{
}

/// Sequences are equal exactly if they are of one length and no place has unequal values.
pub proof fn law_equal_in_every_place<T: PartialEq>(a: Seq<T>, b: Seq<T>)
    ensures
        same_values(a, b) ==> a.len() == b.len(),
        same_values(a, b) ==> forall|k: int|
            0 <= k < a.len() ==> (#[trigger] a[k]).eq_spec(&b[k]),
        !same_values(a, b) && a.len() == b.len() ==> exists|k: int|
            0 <= k < a.len() && !(#[trigger] a[k]).eq_spec(&b[k]),
{
}

/// Whatever the equality of the values is like: sequences found equal are of one length and were
/// found equal in every place; others are of two lengths, or were found unequal in some place.
pub proof fn law_found_equal_in_every_place<T: PartialEq>(a: Seq<T>, b: Seq<T>)
    ensures
        may_equal(a, b, true) ==> a.len() == b.len() && forall|k: int|
            0 <= k < a.len() ==> call_ensures(T::eq, (&#[trigger] a[k], &b[k]), true),
        may_equal(a, b, false) && a.len() == b.len() ==> exists|k: int|
            0 <= k < a.len() && call_ensures(T::eq, (&#[trigger] a[k], &b[k]), false),
{
}

} // verus!
