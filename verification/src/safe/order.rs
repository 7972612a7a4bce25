//! The order that the sorters sort by: the one that `T`'s comparison
//! operators compute, where it is a total preorder.
use vstd::prelude::*;
use core::cmp::Ordering;
use vstd::std_specs::cmp::OrdSpec;
use vstd::std_specs::cmp::PartialOrdSpec;

verus! {

/// `a` does not come after `b`.
pub open spec fn le<T: Ord>(a: T, b: T) -> bool {
    a.partial_cmp_spec(&b) == Some(Ordering::Less) || a.partial_cmp_spec(&b) == Some(
        Ordering::Equal,
    )
}

/// The comparison operators of `T` and its `cmp` compute what `le` says, any
/// two values are comparable, one comes before the other exactly where the
/// other comes after the one, and `le` is transitive.
pub open spec fn lawful<T: Ord>() -> bool {
    &&& T::obeys_partial_cmp_spec()
    &&& T::obeys_cmp_spec()
    &&& forall|a: T, b: T| #[trigger] a.partial_cmp_spec(&b) == Some(a.cmp_spec(&b))
    &&& forall|a: T, b: T|
        #[trigger] a.cmp_spec(&b) == Ordering::Less <==> b.cmp_spec(&a) == Ordering::Greater
    &&& forall|a: T, b: T| #[trigger] le(a, b) || le(b, a)
    &&& forall|a: T, b: T, c: T| #[trigger] le(a, b) && #[trigger] le(b, c) ==> le(a, c)
}

/// Whether `a` comes after `b`.
pub fn greater<T: Ord>(a: &T, b: &T) -> (r: bool)
    requires
        lawful::<T>(),
    ensures
        r == !le(*a, *b),
        r ==> le(*b, *a),
{
    let r = *a > *b;
    proof {
        assert((*a).partial_cmp_spec(&*b) == Some((*a).cmp_spec(&*b)));
        let o = (*a).cmp_spec(&*b);
        assert(o == Ordering::Less || o == Ordering::Equal || o == Ordering::Greater);
        assert(le(*a, *b) || le(*b, *a));
    }
    r
}

/// Under a lawful order, `a` comes before `b` exactly where `b` does not
/// come before or beside `a`: the order that `<` computes is the strict
/// part of `le`.
pub proof fn lemma_less_is_strict<T: Ord>(a: T, b: T)
    requires
        lawful::<T>(),
    ensures
        a.partial_cmp_spec(&b) == Some(Ordering::Less) <==> !le(b, a),
{
    assert(a.partial_cmp_spec(&b) == Some(a.cmp_spec(&b)));
    assert(b.partial_cmp_spec(&a) == Some(b.cmp_spec(&a)));
    let forth = a.cmp_spec(&b);
    let back = b.cmp_spec(&a);
    assert(forth == Ordering::Less <==> back == Ordering::Greater);
    assert(back == Ordering::Less || back == Ordering::Equal || back == Ordering::Greater);
}

/// The integers' own order is lawful.
pub proof fn lemma_i32_lawful()
    ensures
        lawful::<i32>(),
        forall|a: i32, b: i32| le(a, b) <==> a <= b,
{
    assert forall|a: i32, b: i32| le(a, b) <==> a <= b by {}
}

} // verus!
