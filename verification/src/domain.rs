//! The size of the evaluation domain of a relation.
//!
//! The constraints of a relation are turned into polynomials over a domain
//! of roots of unity whose size is a power of two. The scalar field has such
//! domains up to `2^32` points.

use vstd::prelude::*;
use vstd::arithmetic::power2::{lemma2_to64, lemma_pow2_strictly_increases, lemma_pow2_unfold, pow2};

verus! {

/// The largest evaluation domain of the scalar field, `2^32` points.
pub const MAX_DOMAIN_POINTS: u64 = 0x1_0000_0000;

/// `p` doubled until it reaches `n`.
pub open spec fn doubled_to(n: nat, p: nat) -> nat
    decreases 2 * n - p,
{
    if p == 0 || p >= n {
        p
    } else {
        doubled_to(n, 2 * p)
    }
}

/// The number of points of the domain for `n` evaluations: the least power
/// of two that is not below `n`.
pub open spec fn domain_points(n: nat) -> nat {
    doubled_to(n, 1)
}

/// Whether a number is a power of two.
pub open spec fn is_power_of_two(m: nat) -> bool {
    exists|k: nat| m == pow2(k)
}

/// Doubling a power of two that is below `2n` until it reaches `n` gives a
/// power of two that is not below `n` and is below `2n`.
pub proof fn lemma_doubled_to(n: nat, p: nat, k: nat)
    requires
        p == pow2(k),
        n >= 1,
        p < 2 * n,
    ensures
        is_power_of_two(doubled_to(n, p)),
        n <= doubled_to(n, p) < 2 * n,
    decreases 2 * n - p,
{
    lemma2_to64();
    if k > 0 {
        lemma_pow2_strictly_increases(0, k);
    }
    assert(p >= 1);
    if p >= n {
        assert(doubled_to(n, p) == pow2(k));
    } else {
        lemma_pow2_unfold(k + 1);
        lemma_doubled_to(n, 2 * p, k + 1);
    }
}

/// The domain for `n` evaluations has a power of two of points, at least `n`
/// of them and fewer than `2n`: it is the least power of two not below `n`.
pub proof fn lemma_domain_points(n: nat)
    requires
        n >= 1,
    ensures
        is_power_of_two(domain_points(n)),
        n <= domain_points(n) < 2 * n,
{
    lemma2_to64();
    lemma_doubled_to(n, 1, 0);
}

/// The number of points of the domain for `n` evaluations, if the field has
/// a domain of that size.
pub fn domain_size(n: u64) -> (r: Option<u64>)
    requires
        n >= 1,
    ensures
        r == if domain_points(n as nat) <= MAX_DOMAIN_POINTS {
            Some(domain_points(n as nat) as u64)
        } else {
            None
        },
{
    proof {
        lemma_domain_points(n as nat);
        lemma2_to64();
    }
    if n > MAX_DOMAIN_POINTS {
        return None;
    }
    let mut p: u64 = 1;
    let ghost mut k: nat = 0;
    while p < n
        invariant
            n <= MAX_DOMAIN_POINTS,
            p == pow2(k),
            1 <= p <= MAX_DOMAIN_POINTS,
            doubled_to(n as nat, p as nat) == domain_points(n as nat),
        decreases 2 * n - p,
    {
        proof {
            lemma2_to64();
            if k >= 32 {
                if k > 32 {
                    lemma_pow2_strictly_increases(32, k);
                }
                assert(false);
            }
            lemma_pow2_unfold(k + 1);
            lemma_pow2_strictly_increases(k, 32);
            if k + 1 < 32 {
                lemma_pow2_strictly_increases(k + 1, 32);
            }
            k = k + 1;
        }
        p = 2 * p;
    }
    Some(p)
}

} // verus!
