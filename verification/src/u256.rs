//! Unsigned 256-bit integers as four 64-bit limbs, with the signed deltas
//! that pool updates apply to them.

use vstd::prelude::*;

verus! {

/// An unsigned 256-bit integer, least significant limb first.
///
/// Block heights, pool template indices and the accumulated totals of a
/// tracked pool all use this type.
#[derive(Clone, Copy, Debug, PartialEq, Eq, PartialOrd, Ord, Structural, Hash)]
pub struct U256 {
    pub l0: u64,
    pub l1: u64,
    pub l2: u64,
    pub l3: u64,
}

/// The integer square root: the greatest `r` with `r * r <= n`.
pub open spec fn spec_isqrt(n: nat) -> nat {
    choose|r: nat| #[trigger] (r * r) <= n && n < (r + 1) * (r + 1)
}

/// A root bracketing `n` is the integer square root.
pub proof fn lemma_isqrt_unique(n: nat, r: nat)
    requires
        r * r <= n,
        n < (r + 1) * (r + 1),
    ensures
        spec_isqrt(n) == r,
{
    assert(r * r <= n && n < (r + 1) * (r + 1));
    let c = spec_isqrt(n);
    assert(c * c <= n && n < (c + 1) * (c + 1)) by {
        assert(exists|x: nat| #[trigger] (x * x) <= n && n < (x + 1) * (x + 1)) by {
            assert(r * r <= n && n < (r + 1) * (r + 1));
        }
    }
    if c < r {
        assert((c + 1) * (c + 1) <= r * r) by (nonlinear_arith)
            requires
                c + 1 <= r,
        ;
    } else if r < c {
        assert((r + 1) * (r + 1) <= c * c) by (nonlinear_arith)
            requires
                r + 1 <= c,
        ;
    }
}

/// The zero value.
pub open spec fn u256_zero() -> U256 {
    U256 { l0: 0, l1: 0, l2: 0, l3: 0 }
}

impl U256 {
    /// The mathematical value of this integer.
    pub open spec fn as_nat(self) -> nat {
        (self.l0 + self.l1 * 0x10000000000000000
            + self.l2 * 0x100000000000000000000000000000000
            + self.l3 * 0x1000000000000000000000000000000000000000000000000) as nat
    }

    pub fn zero() -> (r: U256)
        ensures
            r.as_nat() == 0,
            r == u256_zero(),
    {
        U256 { l0: 0, l1: 0, l2: 0, l3: 0 }
    }

    pub fn from_u64(v: u64) -> (r: U256)
        ensures
            r.as_nat() == v,
    {
        U256 { l0: v, l1: 0, l2: 0, l3: 0 }
    }

    pub fn from_u128(v: u128) -> (r: U256)
        ensures
            r.as_nat() == v,
    {
        let lo: u64 = (v % 0x10000000000000000) as u64;
        let hi: u64 = (v / 0x10000000000000000) as u64;
        U256 { l0: lo, l1: hi, l2: 0, l3: 0 }
    }

    /// The value as a `u128`, when it fits.
    pub fn to_u128(&self) -> (r: Option<u128>)
        ensures
            self.as_nat() < 0x100000000000000000000000000000000 ==> r == Some(
                self.as_nat() as u128,
            ),
            self.as_nat() >= 0x100000000000000000000000000000000 ==> r is None,
    {
        if self.l2 == 0 && self.l3 == 0 {
            Some(self.l0 as u128 + (self.l1 as u128) * 0x10000000000000000)
        } else {
            None
        }
    }

    pub fn is_zero(&self) -> (r: bool)
        ensures
            r == (self.as_nat() == 0),
    {
        self.l0 == 0 && self.l1 == 0 && self.l2 == 0 && self.l3 == 0
    }

    /// Comparison; true when `self < other`.
    pub fn lt(&self, other: &U256) -> (r: bool)
        ensures
            r == (self.as_nat() < other.as_nat()),
    {
        if self.l3 != other.l3 {
            self.l3 < other.l3
        } else if self.l2 != other.l2 {
            self.l2 < other.l2
        } else if self.l1 != other.l1 {
            self.l1 < other.l1
        } else {
            self.l0 < other.l0
        }
    }

    pub fn le(&self, other: &U256) -> (r: bool)
        ensures
            r == (self.as_nat() <= other.as_nat()),
    {
        !other.lt(self)
    }

    /// Addition, `None` on overflow past 2^256.
    pub fn checked_add(&self, other: &U256) -> (r: Option<U256>)
        ensures
            self.as_nat() + other.as_nat()
                < 0x10000000000000000000000000000000000000000000000000000000000000000 ==> (
            r matches Some(s) && s.as_nat() == self.as_nat() + other.as_nat()),
            self.as_nat() + other.as_nat()
                >= 0x10000000000000000000000000000000000000000000000000000000000000000 ==> r
                is None,
    {
        let s0: u128 = self.l0 as u128 + other.l0 as u128;
        let r0: u64 = (s0 % 0x10000000000000000) as u64;
        let c0: u128 = s0 / 0x10000000000000000;
        let s1: u128 = self.l1 as u128 + other.l1 as u128 + c0;
        let r1: u64 = (s1 % 0x10000000000000000) as u64;
        let c1: u128 = s1 / 0x10000000000000000;
        let s2: u128 = self.l2 as u128 + other.l2 as u128 + c1;
        let r2: u64 = (s2 % 0x10000000000000000) as u64;
        let c2: u128 = s2 / 0x10000000000000000;
        let s3: u128 = self.l3 as u128 + other.l3 as u128 + c2;
        let r3: u64 = (s3 % 0x10000000000000000) as u64;
        let c3: u128 = s3 / 0x10000000000000000;
        let r = U256 { l0: r0, l1: r1, l2: r2, l3: r3 };
        proof {
            assert(s0 == r0 + c0 * 0x10000000000000000);
            assert(s1 == r1 + c1 * 0x10000000000000000);
            assert(s2 == r2 + c2 * 0x10000000000000000);
            assert(s3 == r3 + c3 * 0x10000000000000000);
        }
        if c3 == 0 {
            Some(r)
        } else {
            None
        }
    }

    /// The full 256-bit product of two 128-bit integers.
    pub fn mul_u128(a: u128, b: u128) -> (r: U256)
        ensures
            r.as_nat() == a * b,
    {
        let a0: u128 = a % 0x10000000000000000;
        let a1: u128 = a / 0x10000000000000000;
        let b0: u128 = b % 0x10000000000000000;
        let b1: u128 = b / 0x10000000000000000;
        proof {
            assert(a0 < 0x10000000000000000 && a1 < 0x10000000000000000 && b0
                < 0x10000000000000000 && b1 < 0x10000000000000000);
            assert(a == a0 + a1 * 0x10000000000000000);
            assert(b == b0 + b1 * 0x10000000000000000);
        }
        proof {
            assert(a0 * b0 < 0x100000000000000000000000000000000 && a0 * b1
                < 0x100000000000000000000000000000000 && a1 * b0
                < 0x100000000000000000000000000000000 && a1 * b1
                < 0x100000000000000000000000000000000) by (nonlinear_arith)
                requires
                    a0 < 0x10000000000000000 && a1 < 0x10000000000000000 && b0
                        < 0x10000000000000000 && b1 < 0x10000000000000000,
            ;
        }
        let p00: u128 = a0 * b0;
        let p01: u128 = a0 * b1;
        let p10: u128 = a1 * b0;
        let p11: u128 = a1 * b1;
        proof {
            assert(p00 <= (0x10000000000000000 - 1) * (0x10000000000000000 - 1) && p01 <= (
            0x10000000000000000 - 1) * (0x10000000000000000 - 1) && p10 <= (0x10000000000000000
                - 1) * (0x10000000000000000 - 1) && p11 <= (0x10000000000000000 - 1) * (
            0x10000000000000000 - 1)) by (nonlinear_arith)
                requires
                    a0 < 0x10000000000000000 && a1 < 0x10000000000000000 && b0
                        < 0x10000000000000000 && b1 < 0x10000000000000000,
                    p00 == a0 * b0 && p01 == a0 * b1 && p10 == a1 * b0 && p11 == a1 * b1,
            ;
        }
        // column sums: value = p00 + (p01 + p10) * 2^64 + p11 * 2^128
        let r0: u64 = (p00 % 0x10000000000000000) as u64;
        let carry0: u128 = p00 / 0x10000000000000000;
        let mid_lo: u128 = p01 % 0x10000000000000000;
        let mid_hi_a: u128 = p01 / 0x10000000000000000;
        let mid_lo2: u128 = p10 % 0x10000000000000000;
        let mid_hi_b: u128 = p10 / 0x10000000000000000;
        let s1: u128 = carry0 + mid_lo + mid_lo2;
        let r1: u64 = (s1 % 0x10000000000000000) as u64;
        let carry1: u128 = s1 / 0x10000000000000000;
        let s2: u128 = p11 % 0x10000000000000000 + mid_hi_a + mid_hi_b + carry1;
        let r2: u64 = (s2 % 0x10000000000000000) as u64;
        let carry2: u128 = s2 / 0x10000000000000000;
        let s3: u128 = p11 / 0x10000000000000000 + carry2;
        proof {
            let e64: int = 0x10000000000000000;
            let full: int = a * b;
            let total: int = r0 + r1 * e64 + r2 * (e64 * e64) + s3 * (e64 * e64 * e64);
            assert(full == (a0 + a1 * e64) * (b0 + b1 * e64)) by {
                assert(a == a0 + a1 * e64);
                assert(b == b0 + b1 * e64);
            }
            assert(full == a0 * b0 + (a0 * b1 + a1 * b0) * e64 + (a1 * b1) * (e64 * e64))
                by (nonlinear_arith)
                requires
                    full == (a0 + a1 * e64) * (b0 + b1 * e64),
            ;
            assert(p00 == r0 + carry0 * e64);
            assert(s1 == r1 + carry1 * e64);
            assert(s2 == r2 + carry2 * e64);
            assert(p01 == mid_lo + mid_hi_a * e64);
            assert(p10 == mid_lo2 + mid_hi_b * e64);
            assert(p11 == p11 % (e64 as u128) + (p11 / (e64 as u128)) * e64);
            assert(total == full) by (nonlinear_arith)
                requires
                    full == a0 * b0 + (a0 * b1 + a1 * b0) * e64 + (a1 * b1) * (e64 * e64),
                    p00 == a0 * b0 && p01 == a0 * b1 && p10 == a1 * b0 && p11 == a1 * b1,
                    p00 == r0 + carry0 * e64,
                    p01 == mid_lo + mid_hi_a * e64,
                    p10 == mid_lo2 + mid_hi_b * e64,
                    s1 == carry0 + mid_lo + mid_lo2,
                    s1 == r1 + carry1 * e64,
                    s2 == p11 % (e64 as u128) + mid_hi_a + mid_hi_b + carry1,
                    s2 == r2 + carry2 * e64,
                    p11 == p11 % (e64 as u128) + (p11 / (e64 as u128)) * e64,
                    s3 == p11 / (e64 as u128) + carry2,
                    total == r0 + r1 * e64 + r2 * (e64 * e64) + s3 * (e64 * e64 * e64),
                    e64 == 0x10000000000000000,
            ;
            assert(full >= 0 && full < e64 * e64 * e64 * e64) by (nonlinear_arith)
                requires
                    full == a * b,
                    0 <= a && a < e64 * e64,
                    0 <= b && b < e64 * e64,
                    e64 == 0x10000000000000000,
            ;
            assert(s3 < e64) by (nonlinear_arith)
                requires
                    total == full,
                    full >= 0,
                    full < (e64 * e64 * e64 * e64),
                    total == r0 + r1 * e64 + r2 * (e64 * e64) + s3 * (e64 * e64 * e64),
                    s3 >= 0 && r0 >= 0 && r1 >= 0 && r2 >= 0,
                    e64 == 0x10000000000000000,
            ;
        }
        let r3: u64 = s3 as u64;
        let r = U256 { l0: r0, l1: r1, l2: r2, l3: r3 };
        proof {
            let e64: int = 0x10000000000000000;
            assert(r.as_nat() == r0 + r1 * e64 + r2 * (e64 * e64) + s3 * (e64 * e64 * e64));
        }
        r
    }

    /// The integer square root: the greatest `r` with `r * r <= self`.
    pub fn isqrt(&self) -> (r: u128)
        ensures
            r * r <= self.as_nat(),
            self.as_nat() < (r + 1) * (r + 1),
            r == spec_isqrt(self.as_nat()),
    {
        // Binary search over the root; `lo` always satisfies lo^2 <= n and
        // anything above `hi` overshoots.
        let mut lo: u128 = 0;
        let mut hi: u128 = u128::MAX;
        proof {
            assert(self.as_nat() < (0xffffffffffffffffffffffffffffffff + 1) * (
            0xffffffffffffffffffffffffffffffff + 1)) by (nonlinear_arith)
                requires
                    self.as_nat()
                        < 0x10000000000000000000000000000000000000000000000000000000000000000,
            ;
        }
        while lo < hi
            invariant
                lo <= hi,
                lo * lo <= self.as_nat(),
                self.as_nat() < (hi + 1) * (hi + 1),
            decreases hi - lo,
        {
            let mid: u128 = lo + (hi - lo) / 2 + 1;
            assert(lo < mid <= hi);
            let sq: U256 = U256::mul_u128(mid, mid);
            if sq.le(self) {
                lo = mid;
            } else {
                hi = mid - 1;
                proof {
                    assert(self.as_nat() < mid * mid);
                }
            }
        }
        proof {
            lemma_isqrt_unique(self.as_nat(), lo as nat);
        }
        lo
    }

    /// Subtraction, `None` when `other` exceeds `self`.
    pub fn checked_sub(&self, other: &U256) -> (r: Option<U256>)
        ensures
            other.as_nat() <= self.as_nat() ==> (r matches Some(d) && d.as_nat() == self.as_nat()
                - other.as_nat()),
            other.as_nat() > self.as_nat() ==> r is None,
    {
        let d0: i128 = self.l0 as i128 - other.l0 as i128;
        let r0: u64 = if d0 < 0 {
            (d0 + 0x10000000000000000) as u64
        } else {
            d0 as u64
        };
        let b0: i128 = if d0 < 0 {
            1
        } else {
            0
        };
        let d1: i128 = self.l1 as i128 - other.l1 as i128 - b0;
        let r1: u64 = if d1 < 0 {
            (d1 + 0x10000000000000000) as u64
        } else {
            d1 as u64
        };
        let b1: i128 = if d1 < 0 {
            1
        } else {
            0
        };
        let d2: i128 = self.l2 as i128 - other.l2 as i128 - b1;
        let r2: u64 = if d2 < 0 {
            (d2 + 0x10000000000000000) as u64
        } else {
            d2 as u64
        };
        let b2: i128 = if d2 < 0 {
            1
        } else {
            0
        };
        let d3: i128 = self.l3 as i128 - other.l3 as i128 - b2;
        let r3: u64 = if d3 < 0 {
            (d3 + 0x10000000000000000) as u64
        } else {
            d3 as u64
        };
        let b3: i128 = if d3 < 0 {
            1
        } else {
            0
        };
        let r = U256 { l0: r0, l1: r1, l2: r2, l3: r3 };
        if b3 == 0 {
            Some(r)
        } else {
            None
        }
    }
}

/// The `U256` whose value is `n`, for `n < 2^256`.
#[verifier::opaque]
pub open spec fn spec_u256_of(n: nat) -> U256 {
    let e64: nat = 0x10000000000000000;
    let d0 = n % e64;
    let d1 = (n / e64) % e64;
    let d2 = ((n / e64) / e64) % e64;
    let d3 = (((n / e64) / e64) / e64) % e64;
    U256 { l0: d0 as u64, l1: d1 as u64, l2: d2 as u64, l3: d3 as u64 }
}

/// Limbs are the base-2^64 digits of the value, so the value determines them.
pub proof fn lemma_u256_of_as_nat(x: U256)
    ensures
        spec_u256_of(x.as_nat()) == x,
{
    reveal(spec_u256_of);
    let n: int = x.as_nat() as int;
    let b: int = 0x10000000000000000;
    let q1: int = x.l1 + x.l2 * 0x10000000000000000 + x.l3
        * 0x100000000000000000000000000000000;
    assert(n == q1 * b + x.l0) by (nonlinear_arith)
        requires
            n == x.l0 + x.l1 * 0x10000000000000000 + x.l2
                * 0x100000000000000000000000000000000 + x.l3
                * 0x1000000000000000000000000000000000000000000000000,
            q1 == x.l1 + x.l2 * 0x10000000000000000 + x.l3
                * 0x100000000000000000000000000000000,
            b == 0x10000000000000000,
    ;
    vstd::arithmetic::div_mod::lemma_fundamental_div_mod_converse(n, b, q1, x.l0 as int);
    let q2: int = x.l2 + x.l3 * 0x10000000000000000;
    assert(q1 == q2 * b + x.l1) by (nonlinear_arith)
        requires
            q1 == x.l1 + x.l2 * 0x10000000000000000 + x.l3
                * 0x100000000000000000000000000000000,
            q2 == x.l2 + x.l3 * 0x10000000000000000,
            b == 0x10000000000000000,
    ;
    vstd::arithmetic::div_mod::lemma_fundamental_div_mod_converse(q1, b, q2, x.l1 as int);
    assert(q2 == x.l3 * b + x.l2);
    vstd::arithmetic::div_mod::lemma_fundamental_div_mod_converse(q2, b, x.l3 as int, x.l2 as int);
    vstd::arithmetic::div_mod::lemma_fundamental_div_mod_converse(
        x.l3 as int,
        b,
        0,
        x.l3 as int,
    );
}

/// A signed delta applied to an unsigned 256-bit total: a sign and a
/// 128-bit magnitude.  Event flows and liquidity changes all fit in it.
#[derive(Clone, Copy, Debug, PartialEq, Eq, Structural, Hash)]
pub struct SignedAmount {
    pub negative: bool,
    pub magnitude: u128,
}

impl SignedAmount {
    /// The mathematical value of the delta.
    pub open spec fn as_int(self) -> int {
        if self.negative {
            -(self.magnitude as int)
        } else {
            self.magnitude as int
        }
    }

    pub fn zero() -> (r: SignedAmount)
        ensures
            r.as_int() == 0,
            !r.negative,
            (r == SignedAmount { negative: false, magnitude: 0 }),
    {
        SignedAmount { negative: false, magnitude: 0 }
    }

    pub fn positive(magnitude: u128) -> (r: SignedAmount)
        ensures
            r.as_int() == magnitude,
            (r == SignedAmount { negative: false, magnitude }),
    {
        SignedAmount { negative: false, magnitude }
    }

    pub fn negated(magnitude: u128) -> (r: SignedAmount)
        ensures
            r.as_int() == -(magnitude as int),
            (r == SignedAmount { negative: true, magnitude }),
    {
        SignedAmount { negative: true, magnitude }
    }

    pub fn from_i128(v: i128) -> (r: SignedAmount)
        ensures
            r.as_int() == v,
    {
        if v >= 0 {
            SignedAmount { negative: false, magnitude: v as u128 }
        } else {
            SignedAmount { negative: true, magnitude: (-(v + 1)) as u128 + 1 }
        }
    }
}

/// The unsigned magnitude of an `i128` flow.
pub fn abs_i128(v: i128) -> (r: u128)
    ensures
        v >= 0 ==> r == v,
        v < 0 ==> r == -(v as int),
{
    if v >= 0 {
        v as u128
    } else {
        (-(v + 1)) as u128 + 1
    }
}

impl U256 {
    /// Applies a signed delta, `None` when the result would leave `[0, 2^256)`.
    pub fn add_signed(&self, delta: SignedAmount) -> (r: Option<U256>)
        ensures
            0 <= self.as_nat() + delta.as_int() && self.as_nat() + delta.as_int()
                < 0x10000000000000000000000000000000000000000000000000000000000000000 ==> (
            r matches Some(s) && s.as_nat() == self.as_nat() + delta.as_int()),
            !(0 <= self.as_nat() + delta.as_int() && self.as_nat() + delta.as_int()
                < 0x10000000000000000000000000000000000000000000000000000000000000000) ==> r
                is None,
    {
        let m = U256::from_u128(delta.magnitude);
        if delta.negative {
            self.checked_sub(&m)
        } else {
            self.checked_add(&m)
        }
    }
}

} // verus!
