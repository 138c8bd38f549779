use vstd::prelude::*;

verus! {

/// `r` is the integer square root of `n`.
pub open spec fn is_root(n: int, r: int) -> bool {
    r >= 0 && r * r <= n && n < (r + 1) * (r + 1)
}

/// The integer square root of a non-negative `n`.
pub open spec fn root(n: int) -> int {
    choose|r: int| is_root(n, r)
}

/// Sine of `deg` degrees, in thousandths, by Bhaskara's rational approximation
/// (exact at multiples of 90 degrees, within two thousandths elsewhere).
pub open spec fn sine_milli(deg: int) -> int {
    if deg < 180 {
        (4000 * (deg * (180 - deg))) / (40500 - deg * (180 - deg))
    } else {
        -((4000 * ((deg - 180) * (360 - deg))) / (40500 - (deg - 180) * (360 - deg)))
    }
}

/// Cubic ease-in-out on `[0, 1000]`: slow start, fast middle, slow end.
pub open spec fn ease_milli(u: int) -> int {
    if u < 500 {
        (4 * (u * u * u)) / 1000000
    } else {
        1000 - (4 * ((1000 - u) * (1000 - u) * (1000 - u))) / 1000000
    }
}

proof fn lemma_root_unique(n: int, a: int, b: int)
    requires
        is_root(n, a),
        is_root(n, b),
    ensures
        a == b,
{
    if a < b {
        assert((a + 1) * (a + 1) <= b * b) by (nonlinear_arith)
            requires
                0 <= a,
                a + 1 <= b,
        ;
    } else if b < a {
        assert((b + 1) * (b + 1) <= a * a) by (nonlinear_arith)
            requires
                0 <= b,
                b + 1 <= a,
        ;
    }
}

/// Floor division by a positive divisor.
pub fn floor_div(a: i128, b: i128) -> (r: i128)
    requires
        b > 0,
    ensures
        r == a / b,
{
    if a >= 0 {
        ((a as u128) / (b as u128)) as i128
    } else {
        let n: u128 = (-(a + 1)) as u128;
        let q: u128 = n / (b as u128);
        proof {
            let qi = q as int;
            let ri = (n % (b as u128)) as int;
            assert(n as int == qi * b + ri && 0 <= ri < b) by {
                vstd::arithmetic::div_mod::lemma_fundamental_div_mod(n as int, b as int);
            }
            assert(a == (-(qi + 1)) * b + (b - 1 - ri)) by (nonlinear_arith)
                requires
                    n as int == qi * b + ri,
                    n as int == -(a + 1),
            ;
            vstd::arithmetic::div_mod::lemma_fundamental_div_mod_converse(a as int, b as int, -(qi + 1), b - 1 - ri);
            assert(qi <= n);
        }
        -(q as i128) - 1
    }
}

/// Integer square root of `n`.
pub fn isqrt(n: u128) -> (r: u128)
    requires
        n < 0x1_0000_0000_0000_0000_0000_0000,
    ensures
        is_root(n as int, r as int),
        r == root(n as int),
        r <= 0x1_0000_0000_0000,
{
    let mut lo: u128 = 0;
    let mut hi: u128 = 0x1_0000_0000_0000;
    assert(hi * hi == 0x1_0000_0000_0000_0000_0000_0000) by (nonlinear_arith)
        requires
            hi == 0x1_0000_0000_0000,
    ;
    while hi - lo > 1
        invariant
            lo < hi <= 0x1_0000_0000_0000,
            lo * lo <= n,
            n < hi * hi,
        decreases hi - lo,
    {
        let mid: u128 = lo + (hi - lo) / 2;
        assert(mid * mid <= 0x1_0000_0000_0000_0000_0000_0000) by (nonlinear_arith)
            requires
                mid <= 0x1_0000_0000_0000,
        ;
        if mid * mid <= n {
            lo = mid;
        } else {
            hi = mid;
        }
    }
    proof {
        assert(is_root(n as int, lo as int));
        assert(is_root(n as int, root(n as int)));
        lemma_root_unique(n as int, lo as int, root(n as int));
    }
    lo
}

/// Sine of `deg` degrees (taken modulo 360), in thousandths.
pub fn sine(deg: u64) -> (r: i64)
    ensures
        r == sine_milli((deg % 360) as int),
        -1000 <= r <= 1000,
{
    let d: u64 = deg % 360;
    if d < 180 {
        assert(d * (180 - d) <= 8100) by (nonlinear_arith)
            requires
                d < 180,
        ;
        let p: u64 = d * (180 - d);
        let s: u64 = (4000 * p) / (40500 - p);
        assert(s <= 1000) by (nonlinear_arith)
            requires
                s == (4000 * p) / (40500 - p),
                p <= 8100,
        ;
        s as i64
    } else {
        let e: u64 = d - 180;
        assert(e * (180 - e) <= 8100) by (nonlinear_arith)
            requires
                e < 180,
        ;
        let p: u64 = e * (180 - e);
        assert((e as int) * (180 - e) == (d - 180) * (360 - d));
        let s: u64 = (4000 * p) / (40500 - p);
        assert(s <= 1000) by (nonlinear_arith)
            requires
                s == (4000 * p) / (40500 - p),
                p <= 8100,
        ;
        -(s as i64)
    }
}

/// Eased progress for linear progress `u` in thousandths.
pub fn ease(u: u64) -> (r: u64)
    requires
        u <= 1000,
    ensures
        r == ease_milli(u as int),
        r <= 1000,
        u == 0 ==> r == 0,
        u == 1000 ==> r == 1000,
{
    if u < 500 {
        assert(u * u <= 250000 && u * u * u <= 125000000) by (nonlinear_arith)
            requires
                u < 500,
        ;
        let c: u64 = u * u * u;
        (4 * c) / 1000000
    } else {
        let v: u64 = 1000 - u;
        assert(v * v <= 250000 && v * v * v <= 125000000) by (nonlinear_arith)
            requires
                v <= 500,
        ;
        let c: u64 = v * v * v;
        assert(u == 1000 ==> c == 0);
        1000 - (4 * c) / 1000000
    }
}

} // verus!
