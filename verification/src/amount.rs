//! Sums of amounts, in the node's smallest unit, held in 64 bits.

use vstd::prelude::*;

verus! {

/// The sum of `values` as a mathematical number.
pub open spec fn total(values: Seq<u64>) -> nat
    decreases values.len(),
{
    if values.len() == 0 {
        0
    } else {
        total(values.drop_last()) + values.last() as nat
    }
}

/// The sum of `values` as 64-bit arithmetic gives it: each addition wraps.
pub open spec fn wrapped_total(values: Seq<u64>) -> u64
    decreases values.len(),
{
    if values.len() == 0 {
        0
    } else {
        wrapped_total(values.drop_last()).wrapping_add(values.last())
    }
}

/// The wrapped sum is the true sum modulo 2^64.
pub proof fn wrapped_total_is_total_mod(values: Seq<u64>)
    ensures
        wrapped_total(values) as int == total(values) as int % 0x1_0000_0000_0000_0000,
    decreases values.len(),
{
    if values.len() > 0 {
        wrapped_total_is_total_mod(values.drop_last());
        let before = total(values.drop_last()) as int;
        let v = values.last() as int;
        let m = 0x1_0000_0000_0000_0000int;
        assert((before % m + v) % m == (before + v) % m) by {
            vstd::arithmetic::div_mod::lemma_add_mod_noop_right(v, before, m);
            vstd::arithmetic::div_mod::lemma_add_mod_noop(v, before, m);
            vstd::arithmetic::div_mod::lemma_small_mod(v as nat, m as nat);
        }
        let w = wrapped_total(values.drop_last()) as int;
        if w + v >= m {
            assert((w + v) % m == w + v - m) by {
                vstd::arithmetic::div_mod::lemma_mod_sub_multiples_vanish(w + v, m);
                vstd::arithmetic::div_mod::lemma_small_mod((w + v - m) as nat, m as nat);
            }
        } else {
            vstd::arithmetic::div_mod::lemma_small_mod((w + v) as nat, m as nat);
        }
    }
}

/// Where the true sum fits in 64 bits, the wrapped sum is the true sum.
pub proof fn wrapped_total_is_exact_when_it_fits(values: Seq<u64>)
    requires
        total(values) <= u64::MAX,
    ensures
        wrapped_total(values) == total(values),
{
    wrapped_total_is_total_mod(values);
    vstd::arithmetic::div_mod::lemma_small_mod(total(values), 0x1_0000_0000_0000_0000);
}

/// Adds up `values` in 64 bits.
pub fn sum_wrapping(values: &Vec<u64>) -> (sum: u64)
    ensures
        sum == wrapped_total(values@),
{
    let mut sum: u64 = 0;
    let mut i: usize = 0;
    while i < values.len()
        invariant
            i <= values.len(),
            sum == wrapped_total(values@.take(i as int)),
        decreases values.len() - i,
    {
        proof {
            assert(values@.take(i + 1).drop_last() =~= values@.take(i as int));
        }
        sum = sum.wrapping_add(values[i]);
        i += 1;
    }
    assert(values@.take(i as int) =~= values@);
    sum
}

} // verus!
