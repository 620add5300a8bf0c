//! Shadow-map atlas sizing: power-of-two sizes, the number of reduction
//! passes they imply, and compute work-group counts.

use vstd::arithmetic::power2::{
    lemma2_to64, lemma_pow2_strictly_increases, lemma_pow2_unfold, pow2,
};
use vstd::prelude::*;

verus! {

/// Width and height, in texels, of one compute work group.
pub const SHADOW_WORKGROUP_SIZE: u32 = 16;

/// `s` is `2^k` for some `k`.
pub open spec fn is_power_of_two(s: nat) -> bool
    decreases s,
{
    if s == 1 {
        true
    } else if s == 0 || s % 2 == 1 {
        false
    } else {
        is_power_of_two(s / 2)
    }
}

/// Base-two logarithm, rounded down.
pub open spec fn log2(s: nat) -> nat
    decreases s,
{
    if s <= 1 {
        0
    } else {
        1 + log2(s / 2)
    }
}

/// `a / b` rounded up.
pub open spec fn ceil_div(a: nat, b: nat) -> nat
    recommends
        b > 0,
{
    ((a + b - 1) as nat) / b
}

/// A power of two is two raised to its logarithm.
pub proof fn lemma_pow2_log2(s: nat)
    requires
        is_power_of_two(s),
    ensures
        pow2(log2(s)) == s,
    decreases s,
{
    if s > 1 {
        lemma_pow2_log2(s / 2);
        lemma_pow2_unfold(log2(s));
    } else {
        lemma2_to64();
    }
}

/// A power of two that fits in 32 bits has a logarithm below 32.
pub proof fn lemma_log2_u32_bound(s: nat)
    requires
        is_power_of_two(s),
        s <= u32::MAX,
    ensures
        log2(s) < 32,
{
    lemma_pow2_log2(s);
    if log2(s) >= 32 {
        if log2(s) > 32 {
            lemma_pow2_strictly_increases(32, log2(s));
        }
        lemma2_to64();
    }
}

/// Number of ping-pong reduction passes for an atlas of `size` texels a side:
/// `log2(size)`.
pub fn reductions_for_size(size: u32) -> (r: u32)
    requires
        is_power_of_two(size as nat),
    ensures
        r as nat == log2(size as nat),
        pow2(r as nat) == size,
        r < 32,
{
    let mut n: u32 = size;
    let mut k: u32 = 0;
    proof {
        lemma_log2_u32_bound(size as nat);
    }
    while n > 1
        invariant
            is_power_of_two(n as nat),
            k as nat + log2(n as nat) == log2(size as nat),
            log2(size as nat) < 32,
        decreases n,
    {
        n = n / 2;
        k = k + 1;
    }
    proof {
        lemma_pow2_log2(size as nat);
    }
    k
}

/// Number of work groups needed to cover `size` texels along one axis.
pub fn groups_for_extent(size: u32) -> (r: u32)
    ensures
        r as nat == ceil_div(size as nat, SHADOW_WORKGROUP_SIZE as nat),
{
    let r = size / SHADOW_WORKGROUP_SIZE + if size % SHADOW_WORKGROUP_SIZE == 0 {
        0
    } else {
        1
    };
    assert(r as nat == ceil_div(size as nat, SHADOW_WORKGROUP_SIZE as nat)) by (nonlinear_arith)
        requires
            r == size / 16 + if size % 16 == 0 { 0int } else { 1int },
            SHADOW_WORKGROUP_SIZE == 16,
    ;
    r
}

} // verus!
