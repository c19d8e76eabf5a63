//! The arithmetic of stakes.
//!
//! The ledger is generic in the type of a stake. It sums stakes into pots,
//! divides one pot by another and multiplies a stake by the quotient, all
//! with the operators of that type. What those operators accept and what they
//! return is theirs to say: the ledger speaks of a sum, a quotient or a
//! product only as that which the operator may return, so that a type that
//! rounds, or whose results are not fixed by its operands, is served as well
//! as whole numbers are.

use core::ops::{Add, Div, Mul};
use vstd::prelude::*;
use vstd::std_specs::ops::{AddSpec, DivSpec, MulSpec};

verus! {

/// What a type needs to serve as a stake: it can be copied, it has a default
/// to start a sum from, and it can be added, divided and multiplied within
/// itself. Every type that has all this is a stake.
pub trait Stake: Copy + Default + Add<Output = Self> + Div<Output = Self> + Mul<Output = Self> {}

impl<A: Copy + Default + Add<Output = A> + Div<Output = A> + Mul<Output = A>> Stake for A {}

/// `zero` is what the default of the stake type may be.
pub open spec fn is_zero<A: Stake>(zero: A) -> bool {
    call_ensures(A::default, (), zero)
}

/// The `+` of the stake type accepts `left + right`.
pub open spec fn can_add<A: Stake>(left: A, right: A) -> bool {
    call_requires(<A as Add>::add, (left, right))
}

/// `sum` is what the `+` of the stake type may return for `left + right`.
pub open spec fn is_sum<A: Stake>(left: A, right: A, sum: A) -> bool {
    call_ensures(<A as Add>::add, (left, right), sum)
}

/// The `/` of the stake type accepts `dividend / divisor`.
pub open spec fn can_divide<A: Stake>(dividend: A, divisor: A) -> bool {
    call_requires(<A as Div>::div, (dividend, divisor))
}

/// `quotient` is what the `/` of the stake type may return for
/// `dividend / divisor`.
pub open spec fn is_quotient<A: Stake>(dividend: A, divisor: A, quotient: A) -> bool {
    call_ensures(<A as Div>::div, (dividend, divisor), quotient)
}

/// The `*` of the stake type accepts `left * right`.
pub open spec fn can_multiply<A: Stake>(left: A, right: A) -> bool {
    call_requires(<A as Mul>::mul, (left, right))
}

/// `product` is what the `*` of the stake type may return for
/// `left * right`.
pub open spec fn is_product<A: Stake>(left: A, right: A, product: A) -> bool {
    call_ensures(<A as Mul>::mul, (left, right), product)
}

/// `pot` is a sum of `stakes`: what may come of taking the default of the
/// stake type and adding the stakes to it one after another, the first one
/// first.
pub open spec fn is_pot<A: Stake>(stakes: Seq<A>, pot: A) -> bool
    decreases stakes.len(),
{
    if stakes.len() == 0 {
        is_zero(pot)
    } else {
        exists|before: A|
            is_pot(stakes.drop_last(), before) && #[trigger] is_sum(before, stakes.last(), pot)
    }
}

/// The `+` of the stake type accepts every step of summing `stakes`: each
/// stake added to whatever the stakes before it came to.
pub open spec fn can_sum<A: Stake>(stakes: Seq<A>) -> bool {
    forall|i: int, before: A|
        0 <= i < stakes.len() && #[trigger] is_pot(stakes.take(i), before) ==> can_add(
            before,
            stakes[i],
        )
}

/// The default of the stake type is `zero`, and nothing else.
pub open spec fn default_is<A: Stake>(zero: A) -> bool {
    forall|other: A| #[trigger] is_zero(other) ==> other == zero
}

/// The operators of the stake type return what `add_spec`, `div_spec` and
/// `mul_spec` say, and nothing else.
pub open spec fn arithmetic_is_exact<A: Stake>() -> bool {
    A::obeys_add_spec() && A::obeys_div_spec() && A::obeys_mul_spec()
}

/// The sum of `stakes` over `zero` as `add_spec` has it: the stakes added to
/// `zero` one after another, the first one first.
pub open spec fn pot_from<A: Stake>(zero: A, stakes: Seq<A>) -> A
    decreases stakes.len(),
{
    if stakes.len() == 0 {
        zero
    } else {
        pot_from(zero, stakes.drop_last()).add_spec(stakes.last())
    }
}

/// Where the arithmetic of the stake type is exact and its default is `zero`,
/// a pot is the sum of its stakes over `zero`, and nothing else.
pub proof fn lemma_pot_is_exact<A: Stake>(zero: A, stakes: Seq<A>, pot: A)
    requires
        arithmetic_is_exact::<A>(),
        default_is(zero),
        is_pot(stakes, pot),
    ensures
        pot == pot_from(zero, stakes),
    decreases stakes.len(),
{
    if stakes.len() > 0 {
        let before = choose|before: A|
            is_pot(stakes.drop_last(), before) && #[trigger] is_sum(before, stakes.last(), pot);
        lemma_pot_is_exact(zero, stakes.drop_last(), before);
    }
}

} // verus!
