//! Integer arithmetic used by the curve engine: powers of ten and the
//! floor square and cube roots, with their defining properties.

use vstd::prelude::*;

verus! {

/// Ten to the power `e`, as a mathematical integer.
pub open spec fn pow10(e: nat) -> nat
    decreases e,
{
    if e == 0 {
        1nat
    } else {
        10nat * pow10((e - 1) as nat)
    }
}

pub proof fn lemma_pow10_pos(e: nat)
    ensures
        pow10(e) >= 1,
    decreases e,
{
    if e > 0 {
        lemma_pow10_pos((e - 1) as nat);
        assert(10nat * pow10((e - 1) as nat) >= 1) by (nonlinear_arith)
            requires
                pow10((e - 1) as nat) >= 1,
        ;
    }
}

pub proof fn lemma_pow10_mono(a: nat, b: nat)
    requires
        a <= b,
    ensures
        pow10(a) <= pow10(b),
    decreases b,
{
    if a < b {
        lemma_pow10_mono(a, (b - 1) as nat);
        lemma_pow10_pos((b - 1) as nat);
        assert(pow10((b - 1) as nat) <= 10nat * pow10((b - 1) as nat)) by (nonlinear_arith)
            requires
                pow10((b - 1) as nat) >= 1,
        ;
    }
}

pub proof fn lemma_pow10_38()
    ensures
        pow10(38) == 100_000_000_000_000_000_000_000_000_000_000_000_000nat,
{
    reveal_with_fuel(pow10, 40);
}

/// Ten to the power `e`, as a 128-bit integer.
pub fn pow10_u128(e: u32) -> (r: u128)
    requires
        e <= 38,
    ensures
        r == pow10(e as nat),
{
    proof {
        lemma_pow10_38();
    }
    let mut i: u32 = 0;
    let mut r: u128 = 1;
    while i < e
        invariant
            i <= e <= 38,
            r == pow10(i as nat),
            pow10(38) == 100_000_000_000_000_000_000_000_000_000_000_000_000nat,
        decreases e - i,
    {
        proof {
            lemma_pow10_mono((i + 1) as nat, 38);
            assert(pow10((i + 1) as nat) == 10nat * pow10(i as nat));
        }
        r = r * 10;
        i = i + 1;
    }
    r
}

/// The floor of the square root of `n`.
pub open spec fn sqrt_floor(n: nat) -> nat
    decreases n,
{
    if n == 0 {
        0nat
    } else {
        let p = sqrt_floor((n - 1) as nat);
        if (p + 1) * (p + 1) <= n {
            p + 1
        } else {
            p
        }
    }
}

/// `sqrt_floor(n)` is the unique integer whose square brackets `n`.
pub proof fn lemma_sqrt_floor(n: nat)
    ensures
        sqrt_floor(n) * sqrt_floor(n) <= n,
        n < (sqrt_floor(n) + 1) * (sqrt_floor(n) + 1),
    decreases n,
{
    let s = sqrt_floor(n);
    if n == 0 {
        assert(s == 0);
        assert(s * s <= n && n < (s + 1) * (s + 1)) by (nonlinear_arith)
            requires
                s == 0,
                n == 0,
        ;
    } else {
        lemma_sqrt_floor((n - 1) as nat);
        let p = sqrt_floor((n - 1) as nat);
        if (p + 1) * (p + 1) <= n {
            assert(s == p + 1);
            assert(s * s <= n && n < (s + 1) * (s + 1)) by (nonlinear_arith)
                requires
                    s == p + 1,
                    (p + 1) * (p + 1) <= n,
                    n - 1 < (p + 1) * (p + 1),
                    p >= 0,
                    n >= 1,
            ;
        } else {
            assert(s == p);
            assert(s * s <= n && n < (s + 1) * (s + 1)) by (nonlinear_arith)
                requires
                    s == p,
                    p * p <= n - 1,
                    !((p + 1) * (p + 1) <= n),
                    p >= 0,
                    n >= 1,
            ;
        }
    }
}

pub proof fn lemma_sqrt_unique(n: nat, s: nat)
    requires
        s * s <= n,
        n < (s + 1) * (s + 1),
    ensures
        s == sqrt_floor(n),
{
    lemma_sqrt_floor(n);
    let r = sqrt_floor(n);
    assert(s == r) by (nonlinear_arith)
        requires
            s * s <= n,
            n < (s + 1) * (s + 1),
            r * r <= n,
            n < (r + 1) * (r + 1),
            s >= 0,
            r >= 0,
    ;
}

/// The floor of the cube root of `n`.
pub open spec fn cbrt_floor(n: nat) -> nat
    decreases n,
{
    if n == 0 {
        0nat
    } else {
        let p = cbrt_floor((n - 1) as nat);
        if (p + 1) * (p + 1) * (p + 1) <= n {
            p + 1
        } else {
            p
        }
    }
}

/// `cbrt_floor(n)` is the unique integer whose cube brackets `n`.
pub proof fn lemma_cbrt_floor(n: nat)
    ensures
        cbrt_floor(n) * cbrt_floor(n) * cbrt_floor(n) <= n,
        n < (cbrt_floor(n) + 1) * (cbrt_floor(n) + 1) * (cbrt_floor(n) + 1),
    decreases n,
{
    let s = cbrt_floor(n);
    if n == 0 {
        assert(s == 0);
        assert(s * s * s <= n && n < (s + 1) * (s + 1) * (s + 1)) by (nonlinear_arith)
            requires
                s == 0,
                n == 0,
        ;
    } else {
        lemma_cbrt_floor((n - 1) as nat);
        let p = cbrt_floor((n - 1) as nat);
        if (p + 1) * (p + 1) * (p + 1) <= n {
            assert(s == p + 1);
            assert(s * s * s <= n && n < (s + 1) * (s + 1) * (s + 1)) by (nonlinear_arith)
                requires
                    s == p + 1,
                    (p + 1) * (p + 1) * (p + 1) <= n,
                    n - 1 < (p + 1) * (p + 1) * (p + 1),
                    p >= 0,
                    n >= 1,
            ;
        } else {
            assert(s == p);
            assert(s * s * s <= n && n < (s + 1) * (s + 1) * (s + 1)) by (nonlinear_arith)
                requires
                    s == p,
                    p * p * p <= n - 1,
                    !((p + 1) * (p + 1) * (p + 1) <= n),
                    p >= 0,
                    n >= 1,
            ;
        }
    }
}

pub proof fn lemma_cbrt_unique(n: nat, s: nat)
    requires
        s * s * s <= n,
        n < (s + 1) * (s + 1) * (s + 1),
    ensures
        s == cbrt_floor(n),
{
    lemma_cbrt_floor(n);
    let r = cbrt_floor(n);
    assert(s == r) by (nonlinear_arith)
        requires
            s * s * s <= n,
            n < (s + 1) * (s + 1) * (s + 1),
            r * r * r <= n,
            n < (r + 1) * (r + 1) * (r + 1),
            s >= 0,
            r >= 0,
    ;
}

/// Floor square root of a 128-bit integer, by binary search.
pub fn isqrt(n: u128) -> (r: u128)
    ensures
        r == sqrt_floor(n as nat),
        r * r <= n,
        n < (r + 1) * (r + 1),
{
    let mut lo: u128 = 0;
    let mut hi: u128 = 0x1_0000_0000_0000_0000;
    proof {
        assert(0int * 0int <= n as int && (n as int) < (hi as int) * (hi as int))
            by (nonlinear_arith)
            requires
                n <= u128::MAX,
                hi == 0x1_0000_0000_0000_0000,
        ;
    }
    while hi - lo > 1
        invariant
            lo < hi <= 0x1_0000_0000_0000_0000,
            (lo as int) * (lo as int) <= n as int,
            (n as int) < (hi as int) * (hi as int),
        decreases hi - lo,
    {
        let mid = lo + (hi - lo) / 2;
        match mid.checked_mul(mid) {
            Some(m2) => {
                proof {
                    assert(m2 == (mid as int) * (mid as int));
                }
                if m2 <= n {
                    lo = mid;
                } else {
                    hi = mid;
                }
            },
            None => {
                proof {
                    assert((n as int) < (mid as int) * (mid as int)) by (nonlinear_arith)
                        requires
                            (mid as int) * (mid as int) > u128::MAX,
                            n <= u128::MAX,
                    ;
                }
                hi = mid;
            },
        }
    }
    proof {
        lemma_sqrt_unique(n as nat, lo as nat);
        lemma_sqrt_floor(n as nat);
    }
    lo
}

/// Floor cube root of a 128-bit integer, by binary search.
pub fn icbrt(n: u128) -> (r: u128)
    ensures
        r == cbrt_floor(n as nat),
        r * r * r <= n,
        n < (r + 1) * (r + 1) * (r + 1),
{
    let mut lo: u128 = 0;
    let mut hi: u128 = 0x800_0000_0000;
    proof {
        assert(0int * 0int * 0int <= n as int && (n as int) < (hi as int) * (hi as int) * (hi
            as int)) by (nonlinear_arith)
            requires
                n <= u128::MAX,
                hi == 0x800_0000_0000,
        ;
    }
    while hi - lo > 1
        invariant
            lo < hi <= 0x800_0000_0000,
            (lo as int) * (lo as int) * (lo as int) <= n as int,
            (n as int) < (hi as int) * (hi as int) * (hi as int),
        decreases hi - lo,
    {
        let mid = lo + (hi - lo) / 2;
        proof {
            assert((mid as int) * (mid as int) <= 0x4000_0000_0000_0000_0000_0000int)
                by (nonlinear_arith)
                requires
                    mid <= 0x800_0000_0000,
            ;
        }
        let m2 = mid * mid;
        match m2.checked_mul(mid) {
            Some(m3) => {
                if m3 <= n {
                    proof {
                        assert(m3 == (mid as int) * (mid as int) * (mid as int));
                    }
                    lo = mid;
                } else {
                    hi = mid;
                }
            },
            None => {
                proof {
                    assert((n as int) < (mid as int) * (mid as int) * (mid as int))
                        by (nonlinear_arith)
                        requires
                            (mid as int) * (mid as int) * (mid as int) > u128::MAX,
                            n <= u128::MAX,
                    ;
                }
                hi = mid;
            },
        }
    }
    proof {
        lemma_cbrt_unique(n as nat, lo as nat);
        lemma_cbrt_floor(n as nat);
    }
    lo
}

} // verus!
