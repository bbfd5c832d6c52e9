//! Fixed-point complex numbers.
//!
//! A coordinate is an `i64` that stands for the real number obtained by
//! dividing it by [`SCALE`]. All arithmetic is exact integer arithmetic;
//! a product of two coordinates is rescaled by a floor division by `SCALE`,
//! and every contract states the result of that division exactly.

use vstd::arithmetic::div_mod::{
    lemma_fundamental_div_mod, lemma_fundamental_div_mod_converse_div,
};
use vstd::prelude::*;

verus! {

/// Number of fixed-point units per 1.0: a coordinate `v` stands for the
/// real number `v / SCALE`. `SCALE` is 2^32.
pub const SCALE: i64 = 0x1_0000_0000;

/// Largest coordinate magnitude (in fixed-point units) that a well-formed
/// plane point may have; 2^16 in real terms. The escape-time iteration and
/// the plane mapper keep every value they handle within a small multiple of
/// this bound, so no intermediate product can overflow an `i128`.
pub const COORD_MAX: i64 = 0x1_0000_0000_0000;

/// Largest coordinate magnitude (2^40 fixed-point units, 256.0 in real
/// terms) accepted by [`Complex::mul`]: products of two such coordinates
/// and their sums stay far inside the `i128` range, and the rescaled
/// result fits an `i64`.
pub const MUL_MAX: i64 = 0x100_0000_0000;

/// Largest coordinate magnitude (2^60 fixed-point units) accepted by
/// [`Complex::modulus_squared`]: the sum of two squares of such
/// coordinates fits an `i128`.
pub const MODSQ_MAX: i64 = 0x1000_0000_0000_0000;

/// A point of the complex plane in fixed-point representation.
#[derive(Clone, Copy, Debug, PartialEq, Eq, Structural)]
pub struct Complex {
    real: i64,
    imaginary: i64,
}

impl View for Complex {
    type V = (int, int);

    /// A complex value is viewed as the pair (real, imaginary) of its
    /// fixed-point coordinates.
    closed spec fn view(&self) -> (int, int) {
        (self.real as int, self.imaginary as int)
    }
}

impl Complex {
    /// Both coordinates lie within the working range of the library.
    pub open spec fn wf(self) -> bool {
        &&& -COORD_MAX <= self@.0 <= COORD_MAX
        &&& -COORD_MAX <= self@.1 <= COORD_MAX
    }

    pub fn new(re: i64, im: i64) -> (r: Complex)
        ensures
            r@.0 == re,
            r@.1 == im,
    {
        Complex { real: re, imaginary: im }
    }

    pub fn re(self) -> (r: i64)
        ensures
            r == self@.0,
    {
        self.real
    }

    pub fn im(self) -> (r: i64)
        ensures
            r == self@.1,
    {
        self.imaginary
    }

    pub fn conjugate(&self) -> (r: Complex)
        requires
            self@.1 > i64::MIN,
        ensures
            r@.0 == self@.0,
            r@.1 == -self@.1,
    {
        Complex { real: self.real, imaginary: -self.imaginary }
    }

    pub fn add(self, other: Complex) -> (r: Complex)
        requires
            i64::MIN <= self@.0 + other@.0 <= i64::MAX,
            i64::MIN <= self@.1 + other@.1 <= i64::MAX,
        ensures
            r@.0 == self@.0 + other@.0,
            r@.1 == self@.1 + other@.1,
    {
        Complex { real: self.real + other.real, imaginary: self.imaginary + other.imaginary }
    }

    pub fn sub(self, other: Complex) -> (r: Complex)
        requires
            i64::MIN <= self@.0 - other@.0 <= i64::MAX,
            i64::MIN <= self@.1 - other@.1 <= i64::MAX,
        ensures
            r@.0 == self@.0 - other@.0,
            r@.1 == self@.1 - other@.1,
    {
        Complex { real: self.real - other.real, imaginary: self.imaginary - other.imaginary }
    }

    /// Fixed-point complex product: the exact integer products are summed
    /// and rescaled by one floor division by `SCALE`.
    pub fn mul(self, other: Complex) -> (r: Complex)
        requires
            -MUL_MAX <= self@.0 <= MUL_MAX,
            -MUL_MAX <= self@.1 <= MUL_MAX,
            -MUL_MAX <= other@.0 <= MUL_MAX,
            -MUL_MAX <= other@.1 <= MUL_MAX,
        ensures
            r@.0 == (self@.0 * other@.0 - self@.1 * other@.1) / (SCALE as int),
            r@.1 == (self@.0 * other@.1 + self@.1 * other@.0) / (SCALE as int),
    {
        let a: i128 = self.real as i128;
        let b: i128 = self.imaginary as i128;
        let c: i128 = other.real as i128;
        let d: i128 = other.imaginary as i128;
        proof {
            lemma_abs_product_bound(a as int, c as int, MUL_MAX as int);
            lemma_abs_product_bound(b as int, d as int, MUL_MAX as int);
            lemma_abs_product_bound(a as int, d as int, MUL_MAX as int);
            lemma_abs_product_bound(b as int, c as int, MUL_MAX as int);
        }
        let num_re: i128 = a * c - b * d;
        let num_im: i128 = a * d + b * c;
        let q_re: i128 = div_floor_scale(num_re);
        let q_im: i128 = div_floor_scale(num_im);
        proof {
            lemma_quotient_bound(num_re as int, q_re as int, 2 * (MUL_MAX as int) * (MUL_MAX as int));
            lemma_quotient_bound(num_im as int, q_im as int, 2 * (MUL_MAX as int) * (MUL_MAX as int));
        }
        Complex { real: q_re as i64, imaginary: q_im as i64 }
    }

    /// The squared modulus of the point, in units of `SCALE * SCALE`
    /// (so the real value 1.0 corresponds to `SCALE * SCALE`).
    pub fn modulus_squared(&self) -> (m: i128)
        requires
            -MODSQ_MAX <= self@.0 <= MODSQ_MAX,
            -MODSQ_MAX <= self@.1 <= MODSQ_MAX,
        ensures
            m == self@.0 * self@.0 + self@.1 * self@.1,
    {
        let a: i128 = self.real as i128;
        let b: i128 = self.imaginary as i128;
        proof {
            lemma_abs_product_bound(a as int, a as int, MODSQ_MAX as int);
            lemma_abs_product_bound(b as int, b as int, MODSQ_MAX as int);
            lemma_square_nonneg(a as int);
            lemma_square_nonneg(b as int);
        }
        a * a + b * b
    }

    /// The modulus of the point in fixed-point units, rounded down: the
    /// unique `m >= 0` whose square does not exceed the squared modulus
    /// while `(m + 1)` squared does.
    pub fn modulus(&self) -> (m: i64)
        requires
            self.wf(),
        ensures
            0 <= m,
            m * m <= self@.0 * self@.0 + self@.1 * self@.1,
            (m + 1) * (m + 1) > self@.0 * self@.0 + self@.1 * self@.1,
    {
        let a: i128 = self.real as i128;
        let b: i128 = self.imaginary as i128;
        proof {
            lemma_abs_product_bound(a as int, a as int, COORD_MAX as int);
            lemma_abs_product_bound(b as int, b as int, COORD_MAX as int);
            lemma_square_nonneg(a as int);
            lemma_square_nonneg(b as int);
        }
        let n: u128 = (a * a + b * b) as u128;
        let r: u128 = isqrt_u128(n);
        proof {
            assert(r < 0x2_0000_0000_0000) by (nonlinear_arith)
                requires
                    r * r <= n,
                    n <= 2 * (COORD_MAX as int) * (COORD_MAX as int),
                    COORD_MAX == 0x1_0000_0000_0000,
            ;
        }
        r as i64
    }
}

/// Floor division of `x` by `SCALE`, carried out on unsigned magnitudes.
fn div_floor_scale(x: i128) -> (q: i128)
    requires
        x > i128::MIN,
    ensures
        q == (x as int) / (SCALE as int),
        q * (SCALE as int) <= x < q * (SCALE as int) + (SCALE as int),
{
    let s: u128 = 0x1_0000_0000u128;
    if x >= 0 {
        let xu: u128 = x as u128;
        let qu: u128 = xu / s;
        proof {
            lemma_fundamental_div_mod(xu as int, s as int);
        }
        qu as i128
    } else {
        let m: u128 = (-x) as u128;
        let qm: u128 = m / s;
        let rm: u128 = m % s;
        proof {
            lemma_fundamental_div_mod(m as int, s as int);
        }
        if rm == 0 {
            let q: i128 = -(qm as i128);
            proof {
                lemma_fundamental_div_mod_converse_div(x as int, s as int, q as int, 0);
            }
            q
        } else {
            let q: i128 = -(qm as i128) - 1;
            proof {
                lemma_fundamental_div_mod_converse_div(x as int, s as int, q as int, s - rm);
            }
            q
        }
    }
}

/// Floor integer square root: the unique `r` with `r * r <= n` and
/// `(r + 1) * (r + 1) > n`, found by binary search.
fn isqrt_u128(n: u128) -> (r: u128)
    ensures
        r * r <= n,
        (r + 1) * (r + 1) > n,
{
    let mut lo: u128 = 0;
    let mut hi: u128 = 0x1_0000_0000_0000_0000u128;
    proof {
        assert((hi as int) * (hi as int) > n) by (nonlinear_arith)
            requires
                hi == 0x1_0000_0000_0000_0000u128,
                n <= u128::MAX,
        ;
    }
    while lo + 1 < hi
        invariant
            lo < hi <= 0x1_0000_0000_0000_0000u128,
            lo * lo <= n,
            (hi as int) * (hi as int) > n,
        decreases hi - lo,
    {
        let mid: u128 = lo + (hi - lo) / 2;
        proof {
            assert(mid * mid < u128::MAX) by (nonlinear_arith)
                requires
                    mid < 0x1_0000_0000_0000_0000u128,
            ;
        }
        if mid * mid <= n {
            lo = mid;
        } else {
            hi = mid;
        }
    }
    lo
}

/// The product of two values of magnitude at most `bound` has magnitude at
/// most `bound * bound`.
proof fn lemma_abs_product_bound(a: int, b: int, bound: int)
    requires
        0 <= bound,
        -bound <= a <= bound,
        -bound <= b <= bound,
    ensures
        -(bound * bound) <= a * b <= bound * bound,
{
    assert(-(bound * bound) <= a * b <= bound * bound) by (nonlinear_arith)
        requires
            0 <= bound,
            -bound <= a <= bound,
            -bound <= b <= bound,
    ;
}

proof fn lemma_square_nonneg(a: int)
    ensures
        a * a >= 0,
{
    assert(a * a >= 0) by (nonlinear_arith);
}

/// A floor quotient by `SCALE` of a numerator of magnitude at most `bound`
/// stays within `i64` whenever `bound` is at most 2^81.
proof fn lemma_quotient_bound(num: int, q: int, bound: int)
    requires
        0 <= bound <= 0x200_0000_0000_0000_0000_0000,
        -bound <= num <= bound,
        q * (SCALE as int) <= num < q * (SCALE as int) + (SCALE as int),
    ensures
        i64::MIN <= q <= i64::MAX,
{
    assert(i64::MIN <= q <= i64::MAX) by (nonlinear_arith)
        requires
            0 <= bound <= 0x200_0000_0000_0000_0000_0000,
            -bound <= num <= bound,
            q * (SCALE as int) <= num < q * (SCALE as int) + (SCALE as int),
            SCALE == 0x1_0000_0000,
    ;
}

} // verus!
