//! Integer powers used for tensor-product sizes.
use vstd::prelude::*;

verus! {

/// `b` raised to the power `e`.
pub open spec fn ipow(b: int, e: nat) -> int
    decreases e,
{
    if e == 0 {
        1
    } else {
        b * ipow(b, (e - 1) as nat)
    }
}

/// The larger of two integers.
pub open spec fn max_int(a: int, b: int) -> int {
    if a >= b {
        a
    } else {
        b
    }
}

/// A positive base keeps every power positive.
pub proof fn lemma_ipow_positive(b: int, e: nat)
    requires
        b >= 1,
    ensures
        ipow(b, e) >= 1,
    decreases e,
{
    if e > 0 {
        lemma_ipow_positive(b, (e - 1) as nat);
        assert(b * ipow(b, (e - 1) as nat) >= 1) by (nonlinear_arith)
            requires
                b >= 1,
                ipow(b, (e - 1) as nat) >= 1,
        ;
    }
}

/// With a positive base, powers do not decrease as the exponent grows.
pub proof fn lemma_ipow_monotone(b: int, e1: nat, e2: nat)
    requires
        b >= 1,
        e1 <= e2,
    ensures
        ipow(b, e1) <= ipow(b, e2),
    decreases e2,
{
    if e1 < e2 {
        lemma_ipow_monotone(b, e1, (e2 - 1) as nat);
        lemma_ipow_positive(b, (e2 - 1) as nat);
        assert(ipow(b, (e2 - 1) as nat) <= b * ipow(b, (e2 - 1) as nat)) by (nonlinear_arith)
            requires
                b >= 1,
                ipow(b, (e2 - 1) as nat) >= 1,
        ;
    }
}

/// The powers of degree at most three, written out.
pub proof fn lemma_ipow_small(b: int)
    ensures
        ipow(b, 0) == 1,
        ipow(b, 1) == b,
        ipow(b, 2) == b * b,
        ipow(b, 3) == b * b * b,
{
    reveal_with_fuel(ipow, 4);
    assert(b * (b * b) == b * b * b) by (nonlinear_arith);
}

/// A mixed product of powers whose exponents add up to at most three is bounded
/// by the larger of the two pure powers of that total degree.
pub proof fn lemma_mixed_power_bound(p: int, q: int, a: nat, b: nat)
    requires
        p >= 1,
        q >= 1,
        a + b <= 3,
    ensures
        ipow(p, a) * ipow(q, b) <= max_int(ipow(p, (a + b) as nat), ipow(q, (a + b) as nat)),
{
    lemma_ipow_small(p);
    lemma_ipow_small(q);
    let n = (a + b) as nat;
    let (lo, hi) = if p <= q { (p, q) } else { (q, p) };
    assert(1 <= lo <= hi);
    assert(lo * hi <= hi * hi) by (nonlinear_arith)
        requires 1 <= lo <= hi;
    assert(lo * lo <= lo * hi) by (nonlinear_arith)
        requires 1 <= lo <= hi;
    assert(lo * hi * hi <= hi * hi * hi) by (nonlinear_arith)
        requires 1 <= lo <= hi;
    assert(lo * lo * hi <= lo * hi * hi) by (nonlinear_arith)
        requires 1 <= lo <= hi;
    assert(lo * lo * lo <= lo * lo * hi) by (nonlinear_arith)
        requires 1 <= lo <= hi;
    if a == 0 || b == 0 {
        assert(ipow(p, a) * ipow(q, b) == ipow(p, n) || ipow(p, a) * ipow(q, b) == ipow(q, n));
    } else if a == 1 && b == 1 {
        assert(ipow(p, a) * ipow(q, b) == p * q);
        assert(p * q == lo * hi) by (nonlinear_arith)
            requires (lo == p && hi == q) || (lo == q && hi == p);
    } else if a == 1 && b == 2 {
        assert(ipow(p, a) * ipow(q, b) == p * (q * q));
        assert(p * (q * q) <= hi * hi * hi) by (nonlinear_arith)
            requires
                (lo == p && hi == q) || (lo == q && hi == p),
                lo * hi * hi <= hi * hi * hi,
                lo * lo * hi <= lo * hi * hi,
        ;
    } else {
        assert(a == 2 && b == 1);
        assert(ipow(p, a) * ipow(q, b) == (p * p) * q);
        assert((p * p) * q <= hi * hi * hi) by (nonlinear_arith)
            requires
                (lo == p && hi == q) || (lo == q && hi == p),
                lo * hi * hi <= hi * hi * hi,
                lo * lo * hi <= lo * hi * hi,
        ;
    }
    lemma_ipow_small(hi);
    assert(ipow(hi, n) <= max_int(ipow(p, n), ipow(q, n)));
}

/// `b^e` when it fits in an `i32`, and `None` when it does not.
pub fn checked_pow(b: i32, e: i32) -> (r: Option<i32>)
    requires
        b >= 1,
        e >= 0,
    ensures
        r is Some <==> ipow(b as int, e as nat) <= i32::MAX,
        r matches Some(v) ==> v as int == ipow(b as int, e as nat),
{
    let mut acc: i64 = 1;
    let mut k: i32 = 0;
    while k < e
        invariant
            0 <= k <= e,
            b >= 1,
            acc as int == ipow(b as int, k as nat),
            1 <= acc <= i32::MAX,
        decreases e - k,
    {
        assert(acc * (b as i64) <= i32::MAX as i64 * i32::MAX as i64) by (nonlinear_arith)
            requires
                1 <= acc <= i32::MAX,
                1 <= b <= i32::MAX,
        ;
        assert(ipow(b as int, (k + 1) as nat) == b as int * ipow(b as int, k as nat));
        let prev = acc;
        acc = acc * (b as i64);
        k = k + 1;
        assert(acc as int == b as int * ipow(b as int, (k - 1) as nat) && acc >= 1) by (nonlinear_arith)
            requires
                acc == prev * b,
                prev as int == ipow(b as int, (k - 1) as nat),
                prev >= 1,
                b >= 1,
        ;
        if acc > i32::MAX as i64 {
            proof {
                lemma_ipow_monotone(b as int, k as nat, e as nat);
            }
            return None;
        }
    }
    Some(acc as i32)
}


/// `b^e` for an exponent no larger than one whose power is known to fit.
pub fn pow_within(b: i32, e: i32, n: i32) -> (r: i32)
    requires
        b >= 1,
        0 <= e <= n,
        ipow(b as int, n as nat) <= i32::MAX,
    ensures
        r == ipow(b as int, e as nat),
        r >= 1,
{
    proof {
        lemma_ipow_monotone(b as int, e as nat, n as nat);
        lemma_ipow_positive(b as int, e as nat);
    }
    match checked_pow(b, e) {
        Some(v) => v,
        None => 1,
    }
}

/// Product of two non-negative `i32` values, exact in `u64`.
pub fn wide_mul(a: i32, b: i32) -> (r: u64)
    requires
        a >= 0,
        b >= 0,
    ensures
        r == a * b,
        r <= i32::MAX * i32::MAX,
{
    assert(0 <= (a as int) * (b as int) <= i32::MAX * i32::MAX) by (nonlinear_arith)
        requires
            0 <= a <= i32::MAX,
            0 <= b <= i32::MAX,
    ;
    (a as u64) * (b as u64)
}

/// A product of at most three `i32`-sized factors, the first one at most three.
pub fn scale_small(k: i32, x: u64) -> (r: u64)
    requires
        0 <= k <= 3,
        x <= i32::MAX * i32::MAX,
    ensures
        r == k * x,
{
    assert(k * x <= 3 * (i32::MAX * i32::MAX)) by (nonlinear_arith)
        requires
            0 <= k <= 3,
            x <= i32::MAX * i32::MAX,
    ;
    (k as u64) * x
}

} // verus!
