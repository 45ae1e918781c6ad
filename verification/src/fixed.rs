//! Binary fixed-point numbers.
//!
//! Document coordinates, sizes and style magnitudes are carried as `Fx`
//! values: an `i64` count of 1/65536 units.  Every arithmetic step of the
//! rendering pipeline is therefore exact integer arithmetic, which is what
//! makes repeated renders of the same element bit-stable.

use vstd::prelude::*;
use vstd::arithmetic::div_mod::lemma_fundamental_div_mod_converse;

verus! {

/// Raw-unit bound on coordinates accepted from a document.  Keeping every
/// coordinate inside this bound leaves ample headroom for the sums, products
/// and squares the pipeline forms.
pub const FX_COORD_RAW: i64 = 0x1000_0000_0000;

/// A fixed-point number worth `raw / 65536`.
#[derive(Clone, Copy, Debug, PartialEq, Eq, Structural)]
pub struct Fx {
    pub raw: i64,
}

impl Fx {
    /// True when the raw value lies in `[-b, b]`.
    pub open spec fn bounded(self, b: int) -> bool {
        -b <= self.raw <= b
    }

    /// True for values a document may carry as a coordinate or size.
    pub open spec fn in_coord_range(self) -> bool {
        self.bounded(FX_COORD_RAW as int)
    }

    pub fn from_raw(raw: i64) -> (r: Fx)
        ensures
            r.raw == raw,
    {
        Fx { raw }
    }

    pub fn from_int(i: i32) -> (r: Fx)
        ensures
            r.raw == i * 65536,
    {
        Fx { raw: (i as i64) * 65536 }
    }

    pub fn zero() -> (r: Fx)
        ensures
            r.raw == 0,
    {
        Fx { raw: 0 }
    }

    pub fn plus(self, other: Fx) -> (r: Fx)
        requires
            i64::MIN <= self.raw + other.raw <= i64::MAX,
        ensures
            r.raw == self.raw + other.raw,
    {
        Fx { raw: self.raw + other.raw }
    }

    pub fn minus(self, other: Fx) -> (r: Fx)
        requires
            i64::MIN <= self.raw - other.raw <= i64::MAX,
        ensures
            r.raw == self.raw - other.raw,
    {
        Fx { raw: self.raw - other.raw }
    }

    pub fn neg(self) -> (r: Fx)
        requires
            self.raw != i64::MIN,
        ensures
            r.raw == -self.raw,
    {
        Fx { raw: -self.raw }
    }

    pub fn abs(self) -> (r: Fx)
        requires
            self.raw != i64::MIN,
        ensures
            r.raw == if self.raw >= 0 { self.raw as int } else { -self.raw as int },
    {
        if self.raw >= 0 {
            self
        } else {
            Fx { raw: -self.raw }
        }
    }

    pub fn min_of(self, other: Fx) -> (r: Fx)
        ensures
            r.raw == if self.raw <= other.raw { self.raw as int } else { other.raw as int },
    {
        if self.raw <= other.raw {
            self
        } else {
            other
        }
    }

    pub fn max_of(self, other: Fx) -> (r: Fx)
        ensures
            r.raw == if self.raw >= other.raw { self.raw as int } else { other.raw as int },
    {
        if self.raw >= other.raw {
            self
        } else {
            other
        }
    }

    /// Largest whole number of units not above `self`.
    pub fn floor_units(self) -> (r: Fx)
        requires
            self.bounded(0x4000_0000_0000_0000),
        ensures
            r.raw == (self.raw as int / 65536) * 65536,
    {
        let q: i64 = floor_div_i128(self.raw as i128, 65536);
        Fx { raw: q * 65536 }
    }

    /// Floor division of the raw value by a small positive constant.
    pub fn shrink(self, d: u64) -> (r: Fx)
        requires
            1 <= d <= 0x1_0000_0000,
            self.bounded(0x4000_0000_0000_0000),
        ensures
            r.raw == self.raw as int / d as int,
    {
        proof {
            assert(0x4000_0000_0000_0000 <= 0x4000_0000_0000_0000 * (d as int))
                by (nonlinear_arith)
                requires
                    d >= 1,
            ;
        }
        Fx { raw: floor_div_i128(self.raw as i128, d) }
    }

    /// Fixed-point product, rounded toward minus infinity.
    pub fn times(self, other: Fx) -> (r: Fx)
        requires
            -0x4000_0000_0000_0000 <= self.raw * other.raw <= 0x4000_0000_0000_0000,
        ensures
            r.raw == (self.raw * other.raw) / 65536,
    {
        let p: i128 = (self.raw as i128) * (other.raw as i128);
        Fx { raw: floor_div_i128(p, 65536) }
    }

    /// Fixed-point quotient, rounded toward minus infinity.
    pub fn div_by(self, other: Fx) -> (r: Fx)
        requires
            other.raw > 0,
            self.bounded(0x4000_0000_0000),
        ensures
            r.raw == (self.raw * 65536) / (other.raw as int),
    {
        let p: i128 = (self.raw as i128) * 65536;
        proof {
            assert(0x4000_0000_0000_0000 <= 0x4000_0000_0000_0000 * (other.raw as int))
                by (nonlinear_arith)
                requires
                    other.raw >= 1,
            ;
        }
        Fx { raw: floor_div_i128(p, other.raw as u64) }
    }
}

/// The integer square root of `n`, rounded down: the unique nonnegative `r`
/// with `r * r <= n < (r + 1) * (r + 1)`.
pub open spec fn sqrt_floor(n: int) -> int {
    choose|r: int| r >= 0 && #[trigger] (r * r) <= n < (r + 1) * (r + 1)
}

impl Fx {
    /// Euclidean length of the vector `(self, other)`, rounded down to a raw
    /// unit.
    pub fn hypot_with(self, other: Fx) -> (r: Fx)
        requires
            self.bounded(0x2000_0000_0000_0000),
            other.bounded(0x2000_0000_0000_0000),
        ensures
            r.raw >= 0,
            r.raw * r.raw <= self.raw * self.raw + other.raw * other.raw,
            self.raw * self.raw + other.raw * other.raw < (r.raw + 1) * (r.raw + 1),
            r.raw == sqrt_floor(self.raw * self.raw + other.raw * other.raw),
    {
        let ma: u64 = if self.raw >= 0 {
            self.raw as u64
        } else {
            (-self.raw) as u64
        };
        let mb: u64 = if other.raw >= 0 {
            other.raw as u64
        } else {
            (-other.raw) as u64
        };
        proof {
            assert(ma * ma == self.raw * self.raw) by (nonlinear_arith)
                requires
                    ma == self.raw || ma == -self.raw,
            ;
            assert(mb * mb == other.raw * other.raw) by (nonlinear_arith)
                requires
                    mb == other.raw || mb == -other.raw,
            ;
            assert(ma * ma <= 0x2000_0000_0000_0000u128 * 0x2000_0000_0000_0000u128)
                by (nonlinear_arith)
                requires
                    0 <= ma <= 0x2000_0000_0000_0000u128,
            ;
            assert(mb * mb <= 0x2000_0000_0000_0000u128 * 0x2000_0000_0000_0000u128)
                by (nonlinear_arith)
                requires
                    0 <= mb <= 0x2000_0000_0000_0000u128,
            ;
        }
        let sum: u128 = (ma as u128) * (ma as u128) + (mb as u128) * (mb as u128);
        let root: u64 = isqrt_u128(sum);
        proof {
            assert(root < 0x4000_0000_0000_0000u128) by (nonlinear_arith)
                requires
                    root * root <= sum,
                    sum < 0x4000_0000_0000_0000u128 * 0x4000_0000_0000_0000u128,
                    0 <= root,
            ;
            let n: int = self.raw * self.raw + other.raw * other.raw;
            assert(root >= 0 && root * root <= n < (root + 1) * (root + 1));
            lemma_isqrt_unique(n, root as int, sqrt_floor(n));
        }
        Fx { raw: root as i64 }
    }
}

/// Integer square root: the largest `r` with `r * r <= n`.
pub fn isqrt_u128(n: u128) -> (r: u64)
    requires
        n < 0x4000_0000_0000_0000_0000_0000_0000_0000,
    ensures
        r * r <= n,
        n < (r + 1) * (r + 1),
{
    let mut lo: u128 = 0;
    let mut hi: u128 = 0x8000_0000_0000_0000;
    proof {
        assert(n < (0x8000_0000_0000_0000u128 + 1) * (0x8000_0000_0000_0000u128 + 1))
            by (nonlinear_arith)
            requires
                n < 0x4000_0000_0000_0000_0000_0000_0000_0000u128,
        ;
    }
    while lo < hi
        invariant
            lo <= hi <= 0x8000_0000_0000_0000,
            lo * lo <= n,
            n < (hi + 1) * (hi + 1),
        decreases hi - lo,
    {
        let mid: u128 = lo + (hi - lo + 1) / 2;
        proof {
            assert(mid * mid <= 0x8000_0000_0000_0000u128 * 0x8000_0000_0000_0000u128)
                by (nonlinear_arith)
                requires
                    0 <= mid <= 0x8000_0000_0000_0000u128,
            ;
        }
        if mid * mid <= n {
            lo = mid;
        } else {
            hi = mid - 1;
        }
    }
    lo as u64
}

/// Bounds survive floor division by the scale.
pub proof fn lemma_div_65536_bound(p: int, m: int)
    requires
        0 <= m,
        -m * 65536 <= p <= m * 65536,
    ensures
        -m <= p / 65536 <= m,
{
    lemma_fundamental_div_mod_converse(m * 65536, 65536, m, 0);
    lemma_fundamental_div_mod_converse(-m * 65536, 65536, -m, 0);
    vstd::arithmetic::div_mod::lemma_div_is_ordered(p, m * 65536, 65536);
    vstd::arithmetic::div_mod::lemma_div_is_ordered(-m * 65536, p, 65536);
}

/// The scaled product of two values in `[0, 1]` stays in `[0, 1]`.
pub proof fn lemma_unit_mul_bound(a: int, b: int)
    requires
        0 <= a <= 65536,
        0 <= b <= 65536,
    ensures
        0 <= a * b <= 65536 * 65536,
        0 <= (a * b) / 65536 <= 65536,
{
    assert(0 <= a * b <= 65536 * 65536) by (nonlinear_arith)
        requires
            0 <= a <= 65536,
            0 <= b <= 65536,
    ;
    lemma_div_65536_bound(a * b, 65536);
    vstd::arithmetic::div_mod::lemma_div_pos_is_pos(a * b, 65536);
}

/// Two nonnegative integers whose squares both bracket `n` are equal.
pub proof fn lemma_isqrt_unique(n: int, a: int, b: int)
    requires
        0 <= a,
        0 <= b,
        a * a <= n < (a + 1) * (a + 1),
        b * b <= n < (b + 1) * (b + 1),
    ensures
        a == b,
{
    if a < b {
        assert((a + 1) * (a + 1) <= b * b) by (nonlinear_arith)
            requires
                0 <= a,
                a + 1 <= b,
        ;
    }
    if b < a {
        assert((b + 1) * (b + 1) <= a * a) by (nonlinear_arith)
            requires
                0 <= b,
                b + 1 <= a,
        ;
    }
}

/// Floor division of `p` by the positive divisor `d`; the quotient of a
/// bounded dividend always fits an `i64` because dividing by `d >= 1` never
/// grows the magnitude.
pub fn floor_div_i128(p: i128, d: u64) -> (q: i64)
    requires
        1 <= d,
        -0x4000_0000_0000_0000 * (d as int) <= p <= 0x4000_0000_0000_0000 * (d as int),
    ensures
        q == p as int / d as int,
{
    proof {
        lemma_floor_div_magnitude(p as int, d as int);
        lemma_fundamental_div_mod_converse(
            0x4000_0000_0000_0000 * (d as int) + (d as int) - 1,
            d as int,
            0x4000_0000_0000_0000,
            (d as int) - 1,
        );
        assert((0x4000_0000_0000_0000 * (d as int)) / (d as int) == 0x4000_0000_0000_0000) by {
            lemma_fundamental_div_mod_converse(
                0x4000_0000_0000_0000 * (d as int),
                d as int,
                0x4000_0000_0000_0000,
                0,
            );
        };
    }
    if p >= 0 {
        let qn: u128 = (p as u128) / (d as u128);
        proof {
            assert(qn == p as int / d as int);
            vstd::arithmetic::div_mod::lemma_div_is_ordered(
                p as int,
                0x4000_0000_0000_0000 * (d as int),
                d as int,
            );
        }
        qn as i64
    } else {
        let m: u128 = (-p) as u128;
        let top: u128 = m + (d - 1) as u128;
        let qm: u128 = top / (d as u128);
        proof {
            let mi: int = m as int;
            let di: int = d as int;
            let qi: int = qm as int;
            let ti: int = top as int;
            let ri: int = ti % di;
            assert(ti == mi + di - 1);
            vstd::arithmetic::div_mod::lemma_fundamental_div_mod(ti, di);
            assert(ti == di * qi + ri);
            assert(0 <= ri < di) by {
                vstd::arithmetic::div_mod::lemma_mod_bound(ti, di);
            };
            // p == -m, so p == (-qm) * d + (d - 1 - r) with the remainder in range.
            assert(p as int == (-qi) * di + (di - 1 - ri)) by (nonlinear_arith)
                requires
                    ti == di * qi + ri,
                    ti == mi + di - 1,
                    p == -mi,
            ;
            lemma_fundamental_div_mod_converse(p as int, di, -qi, di - 1 - ri);
            assert(-qi == p as int / di);
            vstd::arithmetic::div_mod::lemma_div_is_ordered(
                -0x4000_0000_0000_0000 * di,
                p as int,
                di,
            );
            assert((-0x4000_0000_0000_0000 * di) / di == -0x4000_0000_0000_0000) by {
                lemma_fundamental_div_mod_converse(
                    -0x4000_0000_0000_0000 * di,
                    di,
                    -0x4000_0000_0000_0000,
                    0,
                );
            };
        }
        -(qm as i64)
    }
}

/// Dividing by a positive number never grows the magnitude of the quotient.
proof fn lemma_floor_div_magnitude(p: int, d: int)
    requires
        d >= 1,
    ensures
        p >= 0 ==> 0 <= p / d <= p,
        p < 0 ==> p <= p / d <= 0,
{
    let q: int = p / d;
    let r: int = p % d;
    vstd::arithmetic::div_mod::lemma_fundamental_div_mod(p, d);
    vstd::arithmetic::div_mod::lemma_mod_bound(p, d);
    if p >= 0 {
        assert(q >= 0) by {
            if q < 0 {
                assert(q * d <= -d) by (nonlinear_arith)
                    requires
                        q <= -1,
                        d >= 1,
                ;
            }
        };
        assert(q <= q * d) by (nonlinear_arith)
            requires
                q >= 0,
                d >= 1,
        ;
    } else {
        assert(q < 0) by {
            if q >= 0 {
                assert(q * d >= 0) by (nonlinear_arith)
                    requires
                        q >= 0,
                        d >= 1,
                ;
            }
        };
        assert(p - q == q * (d - 1) + r) by (nonlinear_arith)
            requires
                p == d * q + r,
        ;
        assert((q + 1) * (d - 1) <= 0) by (nonlinear_arith)
            requires
                q <= -1,
                d >= 1,
        ;
        assert(q * (d - 1) + r <= (q + 1) * (d - 1)) by (nonlinear_arith)
            requires
                r <= d - 1,
        ;
    }
}

} // verus!
