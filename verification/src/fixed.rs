//! Saturating decimal fixed-point numbers.

use vstd::prelude::*;

verus! {

/// Number of raw units that make up one whole unit.
pub const SCALE: i64 = 1_000_000;

/// A signed fixed-point number holding `raw / SCALE`.
///
/// Arithmetic never wraps and never panics: a result that does not fit is
/// replaced by the nearest representable value, products and quotients are
/// rounded toward zero, and dividing by zero saturates in the direction of
/// the dividend's sign (zero divided by zero is zero).
#[derive(Clone, Copy, Debug, PartialEq, Eq, PartialOrd, Ord, Hash, Structural)]
pub struct Fixed {
    pub raw: i64,
}

/// The nearest integer to `v` that an `i64` can hold.
pub open spec fn saturate(v: int) -> int {
    if v < i64::MIN {
        i64::MIN as int
    } else if v > i64::MAX {
        i64::MAX as int
    } else {
        v
    }
}

/// The absolute value of `v`.
pub open spec fn magnitude(v: int) -> int {
    if v < 0 {
        -v
    } else {
        v
    }
}

/// The quotient of `n` by a nonzero `d`, rounded toward zero.
pub open spec fn truncated_quotient(n: int, d: int) -> int {
    if (n < 0) == (d < 0) {
        magnitude(n) / magnitude(d)
    } else {
        -(magnitude(n) / magnitude(d))
    }
}

/// Whether `r` is the integer part of the square root of `n`.
pub open spec fn is_floor_sqrt(n: int, r: int) -> bool {
    0 <= r && r * r <= n && n < (r + 1) * (r + 1)
}

/// The integer part of the square root of a non-negative `n`.
pub open spec fn floor_sqrt(n: int) -> int {
    choose|r: int| is_floor_sqrt(n, r)
}

/// At most one integer is the integer part of the square root of `n`.
pub proof fn lemma_floor_sqrt_unique(n: int, r: int, s: int)
    requires
        is_floor_sqrt(n, r),
        is_floor_sqrt(n, s),
    ensures
        r == s,
{
    if r < s {
        assert((r + 1) * (r + 1) <= s * s) by (nonlinear_arith)
            requires
                0 <= r,
                r + 1 <= s,
        ;
    } else if s < r {
        assert((s + 1) * (s + 1) <= r * r) by (nonlinear_arith)
            requires
                0 <= s,
                s + 1 <= r,
        ;
    }
}

/// Any integer that squares to at most `n`, while its successor squares to
/// more, is `floor_sqrt(n)`.
pub proof fn lemma_floor_sqrt_is(n: int, r: int)
    requires
        is_floor_sqrt(n, r),
    ensures
        floor_sqrt(n) == r,
{
    lemma_floor_sqrt_unique(n, r, floor_sqrt(n));
}

/// Every non-negative integer has an integer part of its square root, and
/// `floor_sqrt` is it.
pub proof fn lemma_floor_sqrt_exists(n: int)
    requires
        0 <= n,
    ensures
        is_floor_sqrt(n, floor_sqrt(n)),
    decreases n,
{
    if n == 0 {
        assert(is_floor_sqrt(0, 0));
    } else {
        lemma_floor_sqrt_exists(n - 1);
        let r = floor_sqrt(n - 1);
        if n < (r + 1) * (r + 1) {
            assert(is_floor_sqrt(n, r));
        } else {
            assert((r + 2) * (r + 2) > (r + 1) * (r + 1)) by (nonlinear_arith)
                requires
                    0 <= r,
            ;
            assert(is_floor_sqrt(n, r + 1));
        }
    }
}

/// The integer part of the square root of a square is its non-negative
/// root.
pub proof fn lemma_floor_sqrt_of_square(k: int)
    requires
        0 <= k,
    ensures
        floor_sqrt(k * k) == k,
{
    assert(k * k < (k + 1) * (k + 1)) by (nonlinear_arith)
        requires
            0 <= k,
    ;
    lemma_floor_sqrt_is(k * k, k);
}

/// The integer part of the square root of `n` is less than a positive
/// `bound` exactly when `n` is less than the square of `bound`.
pub proof fn lemma_floor_sqrt_below(n: int, bound: int)
    requires
        0 <= n,
        0 < bound,
    ensures
        floor_sqrt(n) < bound <==> n < bound * bound,
{
    lemma_floor_sqrt_exists(n);
    let r = floor_sqrt(n);
    if r < bound {
        assert((r + 1) * (r + 1) <= bound * bound) by (nonlinear_arith)
            requires
                0 <= r,
                r + 1 <= bound,
        ;
    } else {
        assert(bound * bound <= r * r) by (nonlinear_arith)
            requires
                0 < bound,
                bound <= r,
        ;
    }
}

/// Neither of two numbers exceeds, in absolute value, the integer part of
/// the square root of the sum of their squares.
pub proof fn lemma_component_below_root(x: int, y: int)
    ensures
        0 <= x * x + y * y,
        magnitude(x) <= floor_sqrt(x * x + y * y),
        magnitude(y) <= floor_sqrt(x * x + y * y),
{
    assert(0 <= x * x && 0 <= y * y) by (nonlinear_arith);
    let n = x * x + y * y;
    lemma_floor_sqrt_exists(n);
    let r = floor_sqrt(n);
    assert(magnitude(x) <= r) by (nonlinear_arith)
        requires
            0 <= r,
            n < (r + 1) * (r + 1),
            x * x <= n,
            magnitude(x) == if x < 0 {
                -x
            } else {
                x
            },
    ;
    assert(magnitude(y) <= r) by (nonlinear_arith)
        requires
            0 <= r,
            n < (r + 1) * (r + 1),
            y * y <= n,
            magnitude(y) == if y < 0 {
                -y
            } else {
                y
            },
    ;
}

/// The integer part of the square root of `n`.
pub fn integer_sqrt(n: u128) -> (r: u128)
    ensures
        r == floor_sqrt(n as int),
        is_floor_sqrt(n as int, r as int),
        r <= 0xffff_ffff_ffff_ffff,
{
    let mut low: u128 = 0;
    let mut high: u128 = 0x1_0000_0000_0000_0000;
    assert(0x1_0000_0000_0000_0000int * 0x1_0000_0000_0000_0000int
        == 0x1_0000_0000_0000_0000_0000_0000_0000_0000int) by (nonlinear_arith);
    while high - low > 1
        invariant
            low < high <= 0x1_0000_0000_0000_0000,
            low * low <= n,
            n < high * high,
        decreases high - low,
    {
        let middle: u128 = low + (high - low) / 2;
        assert(middle * middle <= 0xffff_ffff_ffff_ffff * 0xffff_ffff_ffff_ffff)
            by (nonlinear_arith)
            requires
                0 <= middle <= 0xffff_ffff_ffff_ffff,
        ;
        if middle * middle <= n {
            low = middle;
        } else {
            high = middle;
        }
    }
    proof {
        lemma_floor_sqrt_is(n as int, low as int);
    }
    low
}

/// The absolute value of a product is the product of the absolute values,
/// and a product is negative exactly when its nonzero factors differ in sign.
pub proof fn lemma_product_sign(x: int, y: int)
    ensures
        magnitude(x * y) == magnitude(x) * magnitude(y),
        (x * y < 0) == ((x < 0) != (y < 0) && x != 0 && y != 0),
{
    assert(magnitude(x * y) == magnitude(x) * magnitude(y) && ((x * y < 0) == ((x < 0) != (y < 0)
        && x != 0 && y != 0))) by (nonlinear_arith)
        requires
            magnitude(x) == if x < 0 {
                -x
            } else {
                x
            },
            magnitude(y) == if y < 0 {
                -y
            } else {
                y
            },
            magnitude(x * y) == if x * y < 0 {
                -(x * y)
            } else {
                x * y
            },
    ;
}

/// The absolute value of `v`, which fits even when `v` is `i64::MIN`.
pub(crate) fn magnitude_of(v: i64) -> (m: u128)
    ensures
        m == magnitude(v as int),
        m <= 0x8000_0000_0000_0000,
{
    if v < 0 {
        (-(v as i128)) as u128
    } else {
        v as u128
    }
}

/// The number with absolute value `m` and the given sign, saturated.
pub(crate) fn with_sign(m: u128, negative: bool) -> (r: Fixed)
    ensures
        r.raw == saturate(
            if negative {
                -(m as int)
            } else {
                m as int
            },
        ),
{
    if negative {
        if m >= 0x8000_0000_0000_0000 {
            Fixed { raw: i64::MIN }
        } else {
            Fixed { raw: -(m as i64) }
        }
    } else {
        if m > 0x7fff_ffff_ffff_ffff {
            Fixed { raw: i64::MAX }
        } else {
            Fixed { raw: m as i64 }
        }
    }
}

/// The nearest `i64` to `v`.
fn narrow(v: i128) -> (r: i64)
    ensures
        r == saturate(v as int),
{
    if v > i64::MAX as i128 {
        i64::MAX
    } else if v < i64::MIN as i128 {
        i64::MIN
    } else {
        v as i64
    }
}

impl View for Fixed {
    type V = int;

    /// The number of raw units.
    open spec fn view(&self) -> int {
        self.raw as int
    }
}

impl Fixed {
    /// The whole number `whole`, saturated.
    pub open spec fn from_int_spec(whole: int) -> Fixed {
        Fixed { raw: saturate(whole * SCALE) as i64 }
    }

    /// The saturated sum.
    pub open spec fn add_spec(self, rhs: Fixed) -> Fixed {
        Fixed { raw: saturate(self.raw + rhs.raw) as i64 }
    }

    /// The saturated difference.
    pub open spec fn sub_spec(self, rhs: Fixed) -> Fixed {
        Fixed { raw: saturate(self.raw - rhs.raw) as i64 }
    }

    /// The saturated negation.
    pub open spec fn neg_spec(self) -> Fixed {
        Fixed { raw: saturate(-self.raw) as i64 }
    }

    /// The saturated absolute value.
    pub open spec fn abs_spec(self) -> Fixed {
        Fixed { raw: saturate(magnitude(self.raw as int)) as i64 }
    }

    /// The product, rounded toward zero and saturated.
    pub open spec fn mul_spec(self, rhs: Fixed) -> Fixed {
        Fixed { raw: saturate(truncated_quotient(self.raw * rhs.raw, SCALE as int)) as i64 }
    }

    /// The quotient, rounded toward zero and saturated. A zero divisor
    /// saturates toward the sign of the dividend.
    pub open spec fn div_spec(self, rhs: Fixed) -> Fixed {
        if rhs.raw == 0 {
            if self.raw > 0 {
                Fixed { raw: i64::MAX }
            } else if self.raw < 0 {
                Fixed { raw: i64::MIN }
            } else {
                Fixed { raw: 0 }
            }
        } else {
            Fixed { raw: saturate(truncated_quotient(self.raw * SCALE, rhs.raw as int)) as i64 }
        }
    }

    /// The smaller of the two.
    pub open spec fn min_spec(self, rhs: Fixed) -> Fixed {
        if rhs.raw < self.raw {
            rhs
        } else {
            self
        }
    }

    /// The larger of the two.
    pub open spec fn max_spec(self, rhs: Fixed) -> Fixed {
        if rhs.raw > self.raw {
            rhs
        } else {
            self
        }
    }

    /// `self` raised to at least `low`, then lowered to at most `high`.
    pub open spec fn clamp_spec(self, low: Fixed, high: Fixed) -> Fixed {
        self.max_spec(low).min_spec(high)
    }

    /// Minus one for a negative number, plus one otherwise.
    pub open spec fn signum_spec(self) -> Fixed {
        if self.raw < 0 {
            Fixed { raw: (-SCALE) as i64 }
        } else {
            Fixed { raw: SCALE }
        }
    }

    /// The number holding exactly `raw` raw units.
    pub fn from_raw(raw: i64) -> (r: Fixed)
        ensures
            r.raw == raw,
    {
        Fixed { raw }
    }

    /// The whole number `whole`, saturated.
    pub fn from_int(whole: i64) -> (r: Fixed)
        ensures
            r == Fixed::from_int_spec(whole as int),
    {
        Fixed { raw: narrow(whole as i128 * SCALE as i128) }
    }

    /// Zero.
    pub fn zero() -> (r: Fixed)
        ensures
            r.raw == 0,
    {
        Fixed { raw: 0 }
    }

    /// One.
    pub fn one() -> (r: Fixed)
        ensures
            r.raw == SCALE,
    {
        Fixed { raw: SCALE }
    }

    /// The saturated sum.
    pub fn add(self, rhs: Fixed) -> (r: Fixed)
        ensures
            r == self.add_spec(rhs),
    {
        Fixed { raw: narrow(self.raw as i128 + rhs.raw as i128) }
    }

    /// The saturated difference.
    pub fn sub(self, rhs: Fixed) -> (r: Fixed)
        ensures
            r == self.sub_spec(rhs),
    {
        Fixed { raw: narrow(self.raw as i128 - rhs.raw as i128) }
    }

    /// The saturated negation.
    pub fn neg(self) -> (r: Fixed)
        ensures
            r == self.neg_spec(),
    {
        Fixed { raw: narrow(-(self.raw as i128)) }
    }

    /// The saturated absolute value.
    pub fn abs(self) -> (r: Fixed)
        ensures
            r == self.abs_spec(),
    {
        with_sign(magnitude_of(self.raw), false)
    }

    /// The product, rounded toward zero and saturated.
    pub fn mul(self, rhs: Fixed) -> (r: Fixed)
        ensures
            r == self.mul_spec(rhs),
    {
        let a: u128 = magnitude_of(self.raw);
        let b: u128 = magnitude_of(rhs.raw);
        assert(a * b <= 0x8000_0000_0000_0000 * 0x8000_0000_0000_0000) by (nonlinear_arith)
            requires
                0 <= a <= 0x8000_0000_0000_0000,
                0 <= b <= 0x8000_0000_0000_0000,
        ;
        let quotient: u128 = (a * b) / (SCALE as u128);
        let negative: bool = (self.raw < 0) != (rhs.raw < 0);
        proof {
            lemma_product_sign(self.raw as int, rhs.raw as int);
        }
        with_sign(quotient, negative)
    }

    /// The quotient, rounded toward zero and saturated. A zero divisor
    /// saturates toward the sign of the dividend.
    pub fn div(self, rhs: Fixed) -> (r: Fixed)
        ensures
            r == self.div_spec(rhs),
    {
        if rhs.raw == 0 {
            if self.raw > 0 {
                Fixed { raw: i64::MAX }
            } else if self.raw < 0 {
                Fixed { raw: i64::MIN }
            } else {
                Fixed { raw: 0 }
            }
        } else {
            let a: u128 = magnitude_of(self.raw);
            let b: u128 = magnitude_of(rhs.raw);
            assert(a * (SCALE as u128) <= 0x8000_0000_0000_0000 * 1_000_000) by (nonlinear_arith)
                requires
                    0 <= a <= 0x8000_0000_0000_0000,
                    SCALE as u128 == 1_000_000,
            ;
            let quotient: u128 = (a * (SCALE as u128)) / b;
            let negative: bool = (self.raw < 0) != (rhs.raw < 0);
            with_sign(quotient, negative)
        }
    }

    /// The smaller of the two.
    pub fn min(self, rhs: Fixed) -> (r: Fixed)
        ensures
            r == self.min_spec(rhs),
    {
        if rhs.raw < self.raw {
            rhs
        } else {
            self
        }
    }

    /// The larger of the two.
    pub fn max(self, rhs: Fixed) -> (r: Fixed)
        ensures
            r == self.max_spec(rhs),
    {
        if rhs.raw > self.raw {
            rhs
        } else {
            self
        }
    }

    /// `self` raised to at least `low`, then lowered to at most `high`.
    pub fn clamp(self, low: Fixed, high: Fixed) -> (r: Fixed)
        ensures
            r == self.clamp_spec(low, high),
    {
        self.max(low).min(high)
    }

    /// Minus one for a negative number, plus one otherwise.
    pub fn signum(self) -> (r: Fixed)
        ensures
            r == self.signum_spec(),
    {
        if self.raw < 0 {
            Fixed { raw: -SCALE }
        } else {
            Fixed { raw: SCALE }
        }
    }
}

/// Multiplying by one changes nothing, and multiplying by minus one
/// negates.
pub proof fn lemma_mul_by_unit(x: Fixed)
    ensures
        (Fixed { raw: SCALE }).mul_spec(x) == x,
        x.mul_spec((Fixed { raw: SCALE })) == x,
        (Fixed { raw: (-SCALE) as i64 }).mul_spec(x) == x.neg_spec(),
        x.mul_spec((Fixed { raw: (-SCALE) as i64 })) == x.neg_spec(),
{
    let v = x.raw as int;
    assert(SCALE * v == v * SCALE) by (nonlinear_arith);
    assert((-SCALE) * v == -(v * SCALE)) by (nonlinear_arith);
    assert(v * (-SCALE) == -(v * SCALE)) by (nonlinear_arith);
    assert(magnitude(v * SCALE) == magnitude(v) * SCALE) by (nonlinear_arith)
        requires
            SCALE == 1_000_000,
            magnitude(v) == if v < 0 {
                -v
            } else {
                v
            },
            magnitude(v * SCALE) == if v * SCALE < 0 {
                -(v * SCALE)
            } else {
                v * SCALE
            },
    ;
    assert(magnitude(v) * SCALE / 1_000_000 == magnitude(v)) by (nonlinear_arith)
        requires
            SCALE == 1_000_000,
    ;
    assert((v * SCALE < 0) == (v < 0)) by (nonlinear_arith)
        requires
            SCALE == 1_000_000,
    ;
    assert(magnitude(-(v * SCALE)) == magnitude(v * SCALE));
}

/// Multiplying by zero gives zero.
pub proof fn lemma_mul_by_zero(x: Fixed)
    ensures
        (Fixed { raw: 0 }).mul_spec(x) == (Fixed { raw: 0 }),
        x.mul_spec((Fixed { raw: 0 })) == (Fixed { raw: 0 }),
{
    assert(0 * x.raw == 0);
    assert(x.raw * 0 == 0);
}

/// A nonzero number divided by its absolute value is its sign.
pub proof fn lemma_div_by_magnitude(x: Fixed, m: Fixed)
    requires
        m.raw == magnitude(x.raw as int),
        m.raw > 0,
    ensures
        x.div_spec(m) == x.signum_spec(),
{
    let v = x.raw as int;
    let a = m.raw as int;
    assert(magnitude(v * SCALE) == a * SCALE) by (nonlinear_arith)
        requires
            SCALE == 1_000_000,
            a == if v < 0 {
                -v
            } else {
                v
            },
            magnitude(v * SCALE) == if v * SCALE < 0 {
                -(v * SCALE)
            } else {
                v * SCALE
            },
    ;
    assert(a * SCALE / a == SCALE) by (nonlinear_arith)
        requires
            a > 0,
    ;
    assert((v * SCALE < 0) == (v < 0)) by (nonlinear_arith)
        requires
            SCALE == 1_000_000,
    ;
}

/// A product of two numbers of one sign is not negative, and a product of
/// two numbers of different signs is not positive.
pub proof fn lemma_mul_sign(a: Fixed, b: Fixed)
    ensures
        (a.raw >= 0 && b.raw >= 0) || (a.raw <= 0 && b.raw <= 0) ==> a.mul_spec(b).raw >= 0,
        (a.raw >= 0 && b.raw <= 0) || (a.raw <= 0 && b.raw >= 0) ==> a.mul_spec(b).raw <= 0,
{
    lemma_product_sign(a.raw as int, b.raw as int);
    let m = magnitude(a.raw * b.raw);
    assert(0 <= m / 1_000_000) by (nonlinear_arith)
        requires
            0 <= m,
    ;
    assert(m == 0 ==> m / 1_000_000 == 0);
}

/// A quotient by a number that is not negative has the sign of the
/// dividend, or is zero.
pub proof fn lemma_div_sign(a: Fixed, b: Fixed)
    requires
        b.raw >= 0,
    ensures
        a.raw >= 0 ==> a.div_spec(b).raw >= 0,
        a.raw <= 0 ==> a.div_spec(b).raw <= 0,
{
    if b.raw > 0 {
        let m = magnitude(a.raw * SCALE);
        let d = b.raw as int;
        assert(0 <= m / d) by (nonlinear_arith)
            requires
                0 <= m,
                0 < d,
        ;
        assert(m == 0 ==> m / d == 0) by (nonlinear_arith)
            requires
                0 < d,
        ;
        assert((a.raw * SCALE < 0) == (a.raw < 0)) by (nonlinear_arith)
            requires
                SCALE == 1_000_000,
        ;
        assert((a.raw * SCALE == 0) == (a.raw == 0)) by (nonlinear_arith)
            requires
                SCALE == 1_000_000,
        ;
    }
}

} // verus!
