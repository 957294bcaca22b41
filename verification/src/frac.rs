use vstd::prelude::*;
use vstd::arithmetic::div_mod::*;

verus! {

/// Largest numerator magnitude a gradient coordinate can carry; chosen so
/// that every product formed by the scanner and the painter fits in `i64`.
pub const FRAC_NUM_BOUND: i64 = 0x1000_0000;

/// Largest denominator a gradient coordinate can carry.
pub const FRAC_DEN_BOUND: i64 = 0x4000;

/// An exact fraction `num / den` with a positive denominator.
///
/// A gradient's midpoint and extent are half-integers scaled by the seam
/// split position, so every coordinate the scanner emits is an exact
/// fraction; carrying numerator and denominator keeps the painter's floor
/// and ceiling computations exact. Fractions are not reduced, so `==` on
/// `Frac` is representation equality, not value equality.
#[derive(Clone, Copy, PartialEq, Eq, Structural, Debug)]
pub struct Frac {
    pub num: i64,
    pub den: i64,
}

impl Frac {
    /// Well-formed: the denominator is positive.
    pub open spec fn wf(self) -> bool {
        0 < self.den
    }

    /// Tight bounds: what the scanner emits. Sums of two `bounded`
    /// fractions are merely `modest`.
    pub open spec fn bounded(self) -> bool {
        &&& 0 < self.den <= FRAC_DEN_BOUND
        &&& -FRAC_NUM_BOUND <= self.num <= FRAC_NUM_BOUND
    }

    /// Loose bounds under which `floor` and `ceil` still compute in `i64`.
    pub open spec fn modest(self) -> bool {
        &&& 0 < self.den <= 0x4_0000_0000_0000
        &&& -0x4_0000_0000_0000 <= self.num <= 0x4_0000_0000_0000
    }

    /// The fraction denotes exactly the integer `k`.
    pub open spec fn is_int(self, k: int) -> bool {
        self.num == k * self.den
    }

    /// Floor of the denoted value (integer division by the positive
    /// denominator rounds toward negative infinity).
    pub open spec fn spec_floor(self) -> int {
        self.num as int / self.den as int
    }

    /// Ceiling of the denoted value.
    pub open spec fn spec_ceil(self) -> int {
        -((-(self.num as int)) / self.den as int)
    }

    /// Floor, computed exactly.
    pub fn floor(self) -> (r: i64)
        requires
            self.modest(),
        ensures
            r == self.spec_floor(),
            self.den * r <= self.num < self.den * (r + 1),
            -0x4_0000_0000_0000 <= r <= 0x4_0000_0000_0000,
    {
        proof {
            lemma_floor_props(self);
            lemma_floor_magnitude(self);
        }
        if self.num >= 0 {
            let q: u64 = (self.num as u64) / (self.den as u64);
            proof {
                lemma_div_nonincreasing(self.num as int, self.den as int);
                lemma_div_pos_is_pos(self.num as int, self.den as int);
            }
            q as i64
        } else {
            let a: u64 = (-self.num) as u64;
            let d: u64 = self.den as u64;
            let q: u64 = a / d;
            let m: u64 = a % d;
            proof {
                let ai = a as int;
                let di = d as int;
                let qi = q as int;
                let mi = m as int;
                let n = self.num as int;
                lemma_div_nonincreasing(ai, di);
                lemma_div_pos_is_pos(ai, di);
                lemma_fundamental_div_mod(ai, di);
                lemma_mod_bound(ai, di);
                if m == 0 {
                    // -a == (-q) * d, so the quotient of num by den is -q
                    assert(n == (-qi) * di + 0) by (nonlinear_arith)
                        requires ai == di * qi + mi, mi == 0, n == -ai;
                    lemma_fundamental_div_mod_converse_div(n, di, -qi, 0);
                } else {
                    // -a == (-q - 1) * d + (d - m) with 0 <= d - m < d
                    assert(n == (-qi - 1) * di + (di - mi)) by (nonlinear_arith)
                        requires ai == di * qi + mi, n == -ai;
                    lemma_fundamental_div_mod_converse_div(n, di, -qi - 1, di - mi);
                }
            }
            if m == 0 {
                -(q as i64)
            } else {
                -(q as i64) - 1
            }
        }
    }

    /// Ceiling, computed exactly.
    pub fn ceil(self) -> (r: i64)
        requires
            self.modest(),
        ensures
            r == self.spec_ceil(),
            self.den * (r - 1) < self.num <= self.den * r,
            -0x4_0000_0000_0000 <= r <= 0x4_0000_0000_0000 + 1,
    {
        let neg = Frac { num: -self.num, den: self.den };
        let q = neg.floor();
        proof {
            let d = self.den as int;
            let n = self.num as int;
            assert(d * (-q - 1) < n && n <= d * (-(q as int))) by (nonlinear_arith)
                requires
                    d * q <= -n,
                    -n < d * (q + 1);
        }
        -q
    }

    /// Exact sum; the result is only `modest`, not `bounded`.
    pub fn plus(self, other: Frac) -> (s: Frac)
        requires
            self.bounded(),
            other.bounded(),
        ensures
            s.num == self.num * other.den + other.num * self.den,
            s.den == self.den * other.den,
            s.modest(),
            s.wf(),
    {
        proof {
            let a = self.num as int;
            let b = other.num as int;
            let p = self.den as int;
            let r = other.den as int;
            assert(-0x8000_0000_0000 <= a * r && a * r <= 0x8000_0000_0000
                && -0x8000_0000_0000 <= b * p && b * p <= 0x8000_0000_0000
                && 0 < p * r
                && p * r <= 0x1000_0000) by (nonlinear_arith)
                requires
                    0 < p && p <= FRAC_DEN_BOUND as int,
                    0 < r && r <= FRAC_DEN_BOUND as int,
                    -(FRAC_NUM_BOUND as int) <= a && a <= FRAC_NUM_BOUND as int,
                    -(FRAC_NUM_BOUND as int) <= b && b <= FRAC_NUM_BOUND as int;
        }
        Frac { num: self.num * other.den + other.num * self.den, den: self.den * other.den }
    }
}

/// The floor of a well-formed fraction brackets its numerator:
/// `den * floor <= num < den * (floor + 1)`.
pub proof fn lemma_floor_props(f: Frac)
    requires
        f.wf(),
    ensures
        f.den * f.spec_floor() <= f.num < f.den * (f.spec_floor() + 1),
{
    let n = f.num as int;
    let d = f.den as int;
    lemma_fundamental_div_mod(n, d);
    lemma_mod_bound(n, d);
    assert(d * (n / d) <= n < d * (n / d + 1)) by (nonlinear_arith)
        requires
            n == d * (n / d) + n % d,
            0 <= n % d,
            n % d < d;
}

/// The same bracketing for the ceiling: `den * (ceil - 1) < num <= den * ceil`.
pub proof fn lemma_ceil_props(f: Frac)
    requires
        f.wf(),
    ensures
        f.den * (f.spec_ceil() - 1) < f.num <= f.den * f.spec_ceil(),
{
    let n = -(f.num as int);
    let d = f.den as int;
    lemma_fundamental_div_mod(n, d);
    lemma_mod_bound(n, d);
    assert(d * (-(n / d) - 1) < -n && -n <= d * (-(n / d))) by (nonlinear_arith)
        requires
            n == d * (n / d) + n % d,
            0 <= n % d,
            n % d < d;
}

/// The floor's magnitude never exceeds the numerator's.
pub proof fn lemma_floor_magnitude(f: Frac)
    requires
        f.wf(),
    ensures
        -abs_int(f.num as int) <= f.spec_floor() <= abs_int(f.num as int),
{
    lemma_floor_props(f);
    let q = f.spec_floor();
    let n = f.num as int;
    let d = f.den as int;
    assert(-abs_int(n) <= q && q <= abs_int(n)) by (nonlinear_arith)
        requires
            d * q <= n,
            n < d * (q + 1),
            d >= 1,
            abs_int(n) == if n >= 0 { n } else { -n };
}

/// If `num <= k * den` then the fraction's value is at most `k`, so its
/// ceiling is too.
pub proof fn lemma_ceil_le(f: Frac, k: int)
    requires
        f.wf(),
        f.num <= k * f.den,
    ensures
        f.spec_ceil() <= k,
{
    lemma_ceil_props(f);
    let c = f.spec_ceil();
    let n = f.num as int;
    let d = f.den as int;
    assert(c <= k) by (nonlinear_arith)
        requires
            d * (c - 1) < n,
            n <= k * d,
            d >= 1;
}

/// If `k * den <= num` then the fraction's value is at least `k`, so its
/// floor is too.
pub proof fn lemma_floor_ge(f: Frac, k: int)
    requires
        f.wf(),
        k * f.den <= f.num,
    ensures
        k <= f.spec_floor(),
{
    lemma_floor_props(f);
    let q = f.spec_floor();
    let n = f.num as int;
    let d = f.den as int;
    assert(k <= q) by (nonlinear_arith)
        requires
            n < d * (q + 1),
            k * d <= n,
            d >= 1;
}

/// If `num <= k * den` then the fraction's value is at most `k`, so its
/// floor is too.
pub proof fn lemma_floor_le(f: Frac, k: int)
    requires
        f.wf(),
        f.num <= k * f.den,
    ensures
        f.spec_floor() <= k,
{
    lemma_floor_props(f);
    let q = f.spec_floor();
    let n = f.num as int;
    let d = f.den as int;
    assert(q <= k) by (nonlinear_arith)
        requires
            d * q <= n,
            n <= k * d,
            d >= 1;
}

/// If `k * den <= num` then the fraction's value is at least `k`, so its
/// ceiling is too.
pub proof fn lemma_ceil_ge(f: Frac, k: int)
    requires
        f.wf(),
        k * f.den <= f.num,
    ensures
        k <= f.spec_ceil(),
{
    lemma_ceil_props(f);
    let c = f.spec_ceil();
    let n = f.num as int;
    let d = f.den as int;
    assert(k <= c) by (nonlinear_arith)
        requires
            n <= d * c,
            k * d <= n,
            d >= 1;
}

/// Absolute value of an integer.
pub open spec fn abs_int(a: int) -> int {
    if a >= 0 { a } else { -a }
}

} // verus!
