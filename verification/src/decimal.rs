//! Decimal numbers with nine fractional digits.
//!
//! A `Decimal` holds a signed count of billionths. Sums and differences are
//! exact. Products and quotients are rounded down to the next billionth
//! (Euclidean division: the remainder is never negative). Every operation
//! fails, instead of wrapping, when its result cannot be stored.

use vstd::prelude::*;

verus! {

/// Billionths in one whole unit.
pub const NANOS_PER_UNIT: i64 = 1_000_000_000;

/// A decimal number, stored as a count of billionths.
#[derive(Clone, Copy, Debug, PartialEq, Eq, Structural)]
pub struct Decimal {
    pub nanos: i64,
}

/// Whether a count of billionths can be stored.
pub open spec fn representable(x: int) -> bool {
    i64::MIN <= x <= i64::MAX
}

/// The decimal with `x` billionths, if it can be stored.
pub open spec fn narrow(x: int) -> Option<Decimal> {
    if representable(x) {
        Some(Decimal { nanos: x as i64 })
    } else {
        None
    }
}

/// The magnitude of an integer.
pub open spec fn magnitude(x: int) -> int {
    if x < 0 {
        -x
    } else {
        x
    }
}

/// The billionths of the product of two decimals, rounded down.
pub open spec fn product_nanos(a: int, b: int) -> int {
    (a * b) / (NANOS_PER_UNIT as int)
}

/// The billionths of the quotient of two decimals, by Euclidean division.
pub open spec fn quotient_nanos(a: int, b: int) -> int {
    (a * NANOS_PER_UNIT) / b
}

/// The sum of the billionths of a sequence of decimals.
pub open spec fn total_nanos(values: Seq<Decimal>) -> int
    decreases values.len(),
{
    if values.len() == 0 {
        0
    } else {
        total_nanos(values.drop_last()) + values.last().nanos
    }
}

/// A product of two stored counts fits in 128 bits with room to spare.
pub proof fn lemma_product_bounds(a: int, b: int)
    requires
        representable(a),
        representable(b),
    ensures
        -0x4000_0000_0000_0000_0000_0000_0000_0000 <= a * b
            <= 0x4000_0000_0000_0000_0000_0000_0000_0000,
{
    assert(-0x4000_0000_0000_0000_0000_0000_0000_0000 <= a * b
        <= 0x4000_0000_0000_0000_0000_0000_0000_0000) by (nonlinear_arith)
        requires
            -0x8000_0000_0000_0000 <= a < 0x8000_0000_0000_0000,
            -0x8000_0000_0000_0000 <= b < 0x8000_0000_0000_0000,
    ;
}

/// Whether a sum of `count` stored counts can have the value `sum`.
pub open spec fn sum_bounded(sum: int, count: int) -> bool {
    -count * 0x8000_0000_0000_0000 <= sum <= count * 0x8000_0000_0000_0000
}

/// Adding one more stored count to a sum of `count` of them keeps the sum
/// within 128 bits.
pub proof fn lemma_sum_bounded_step(sum: int, count: int, next: int)
    requires
        sum_bounded(sum, count),
        representable(next),
        0 <= count < 0x1_0000_0000_0000_0000,
    ensures
        sum_bounded(sum + next, count + 1),
        i128::MIN <= sum + next <= i128::MAX,
{
    assert((count + 1) * 0x8000_0000_0000_0000 == count * 0x8000_0000_0000_0000
        + 0x8000_0000_0000_0000) by (nonlinear_arith);
    assert((count + 1) * 0x8000_0000_0000_0000 <= 0x1_0000_0000_0000_0000 * 0x8000_0000_0000_0000)
        by (nonlinear_arith)
        requires
            count < 0x1_0000_0000_0000_0000,
    ;
}

/// What a Euclidean division leaves: not less than nothing and less than the
/// magnitude of the divisor.
pub proof fn lemma_remainder_bounds(x: int, d: int)
    requires
        d != 0,
    ensures
        0 <= x - d * (x / d) <= magnitude(d) - 1,
{
    let q = x / d;
    if d > 0 {
        assert(0 <= x - d * q <= d - 1) by (nonlinear_arith)
            requires
                d > 0,
                q == x / d,
        ;
    } else {
        assert(0 <= x - d * q <= -d - 1) by (nonlinear_arith)
            requires
                d < 0,
                q == x / d,
        ;
    }
}

/// A number whose product with a divisor lies between nothing and `count`
/// times less than the divisor's magnitude is smaller than `count`.
pub proof fn lemma_small_gap(d: int, gap: int, count: int)
    requires
        d != 0,
        count > 0,
        0 <= d * gap <= count * (magnitude(d) - 1),
    ensures
        magnitude(gap) < count,
{
    if d > 0 {
        assert(0 <= gap < count) by (nonlinear_arith)
            requires
                d > 0,
                count > 0,
                0 <= d * gap <= count * (d - 1),
        ;
    } else {
        assert(-count < gap <= 0) by (nonlinear_arith)
            requires
                d < 0,
                count > 0,
                0 <= d * gap <= count * (-d - 1),
        ;
    }
}

/// Narrows a 128-bit count of billionths to a decimal.
pub fn narrow_i128(x: i128) -> (r: Option<Decimal>)
    ensures
        r == narrow(x as int),
{
    if x < i64::MIN as i128 || x > i64::MAX as i128 {
        None
    } else {
        Some(Decimal { nanos: x as i64 })
    }
}

impl Decimal {
    pub open spec fn spec_add(self, other: Decimal) -> Option<Decimal> {
        narrow(self.nanos + other.nanos)
    }

    pub open spec fn spec_sub(self, other: Decimal) -> Option<Decimal> {
        narrow(self.nanos - other.nanos)
    }

    pub open spec fn spec_mul(self, other: Decimal) -> Option<Decimal> {
        narrow(product_nanos(self.nanos as int, other.nanos as int))
    }

    pub open spec fn spec_div(self, other: Decimal) -> Option<Decimal> {
        if other.nanos == 0 {
            None
        } else {
            narrow(quotient_nanos(self.nanos as int, other.nanos as int))
        }
    }

    /// `self * numerator / denominator` with a single rounding.
    pub open spec fn spec_mul_div(self, numerator: Decimal, denominator: Decimal) -> Option<
        Decimal,
    > {
        if denominator.nanos == 0 {
            None
        } else {
            narrow((self.nanos * numerator.nanos) / (denominator.nanos as int))
        }
    }

    /// The decimal with the given count of billionths.
    pub fn from_nanos(nanos: i64) -> (r: Decimal)
        ensures
            r.nanos == nanos,
    {
        Decimal { nanos }
    }

    /// The decimal that equals a whole number, if it can be stored.
    pub fn from_units(units: i64) -> (r: Option<Decimal>)
        ensures
            r == narrow(units * NANOS_PER_UNIT),
    {
        proof {
            lemma_product_bounds(units as int, NANOS_PER_UNIT as int);
        }
        let wide: i128 = (units as i128) * (NANOS_PER_UNIT as i128);
        narrow_i128(wide)
    }

    /// Zero.
    pub fn zero() -> (r: Decimal)
        ensures
            r.nanos == 0,
    {
        Decimal { nanos: 0 }
    }

    /// The stored count of billionths.
    pub fn nanos(self) -> (r: i64)
        ensures
            r == self.nanos,
    {
        self.nanos
    }

    /// The exact sum, unless it cannot be stored.
    pub fn checked_add(self, other: Decimal) -> (r: Option<Decimal>)
        ensures
            r == self.spec_add(other),
    {
        let wide: i128 = (self.nanos as i128) + (other.nanos as i128);
        narrow_i128(wide)
    }

    /// The exact difference, unless it cannot be stored.
    pub fn checked_sub(self, other: Decimal) -> (r: Option<Decimal>)
        ensures
            r == self.spec_sub(other),
    {
        let wide: i128 = (self.nanos as i128) - (other.nanos as i128);
        narrow_i128(wide)
    }

    /// The product rounded down, unless it cannot be stored.
    pub fn checked_mul(self, other: Decimal) -> (r: Option<Decimal>)
        ensures
            r == self.spec_mul(other),
    {
        proof {
            lemma_product_bounds(self.nanos as int, other.nanos as int);
        }
        let wide: i128 = (self.nanos as i128) * (other.nanos as i128);
        match wide.checked_div_euclid(NANOS_PER_UNIT as i128) {
            Some(q) => narrow_i128(q),
            None => None,
        }
    }

    /// The quotient by Euclidean division, unless the divisor is zero or the
    /// quotient cannot be stored.
    pub fn checked_div(self, other: Decimal) -> (r: Option<Decimal>)
        ensures
            r == self.spec_div(other),
    {
        if other.nanos == 0 {
            return None;
        }
        proof {
            lemma_product_bounds(self.nanos as int, NANOS_PER_UNIT as int);
        }
        let wide: i128 = (self.nanos as i128) * (NANOS_PER_UNIT as i128);
        match wide.checked_div_euclid(other.nanos as i128) {
            Some(q) => narrow_i128(q),
            None => None,
        }
    }

    /// `self * numerator / denominator`, rounded once, unless the
    /// denominator is zero or the result cannot be stored.
    pub fn checked_mul_div(self, numerator: Decimal, denominator: Decimal) -> (r: Option<Decimal>)
        ensures
            r == self.spec_mul_div(numerator, denominator),
    {
        if denominator.nanos == 0 {
            return None;
        }
        proof {
            lemma_product_bounds(self.nanos as int, numerator.nanos as int);
        }
        let wide: i128 = (self.nanos as i128) * (numerator.nanos as i128);
        match wide.checked_div_euclid(denominator.nanos as i128) {
            Some(q) => narrow_i128(q),
            None => None,
        }
    }
}

/// The exact sum of a list of decimals, unless it cannot be stored.
pub fn checked_sum(values: &Vec<Decimal>) -> (r: Option<Decimal>)
    ensures
        r == narrow(total_nanos(values@)),
{
    let mut acc: i128 = 0;
    let mut i: usize = 0;
    while i < values.len()
        invariant
            i <= values.len(),
            acc == total_nanos(values@.take(i as int)),
            sum_bounded(acc as int, i as int),
        decreases values.len() - i,
    {
        proof {
            assert(values@.take(i as int + 1).drop_last() =~= values@.take(i as int));
            lemma_sum_bounded_step(acc as int, i as int, values@[i as int].nanos as int);
        }
        acc = acc + (values[i].nanos as i128);
        i = i + 1;
    }
    proof {
        assert(values@.take(i as int) =~= values@);
    }
    narrow_i128(acc)
}


/// Parts in one whole, for a `Weight`: ten to the eighteenth.
pub const PARTS_PER_WHOLE: i128 = 1_000_000_000_000_000_000;

/// Parts in one billionth of a whole.
pub const PARTS_PER_BILLIONTH: i128 = 1_000_000_000;

/// A share of a whole, with eighteen fractional digits: a signed count of
/// parts of which a quintillion make one whole.
///
/// Shares are kept this fine so that the rounding of many of them stays
/// below a billionth.
#[derive(Clone, Copy, Debug, PartialEq, Eq, Structural)]
pub struct Weight {
    pub parts: i128,
}

/// The sum of the parts of a sequence of weights.
pub open spec fn total_parts(weights: Seq<Weight>) -> int
    decreases weights.len(),
{
    if weights.len() == 0 {
        0
    } else {
        total_parts(weights.drop_last()) + weights.last().parts
    }
}

/// The share that a value has of a sum that is not zero, by Euclidean
/// division.
pub open spec fn share_of(value: Decimal, sum: Decimal) -> Weight {
    Weight { parts: ((value.nanos * PARTS_PER_WHOLE) / (sum.nanos as int)) as i128 }
}

/// Whether a number fits in 128 bits.
pub open spec fn fits_wide(x: int) -> bool {
    i128::MIN <= x <= i128::MAX
}

/// The quotient of a Euclidean division is no larger than the dividend.
pub proof fn lemma_quotient_bounds(x: int, d: int)
    requires
        d != 0,
    ensures
        -magnitude(x) - 1 <= x / d <= magnitude(x) + 1,
{
    let q = x / d;
    if x >= 0 {
        assert(-x - 1 <= q <= x + 1) by (nonlinear_arith)
            requires
                d != 0,
                x >= 0,
                q == x / d,
        ;
    } else {
        assert(x - 1 <= q <= -x + 1) by (nonlinear_arith)
            requires
                d != 0,
                x < 0,
                q == x / d,
        ;
    }
}

impl Weight {
    /// The weight with the given count of parts.
    pub fn from_parts(parts: i128) -> (r: Weight)
        ensures
            r.parts == parts,
    {
        Weight { parts }
    }

    /// The stored count of parts.
    pub fn parts(self) -> (r: i128)
        ensures
            r == self.parts,
    {
        self.parts
    }

    /// The share that a value has of a sum that is not zero.
    pub fn share(value: Decimal, sum: Decimal) -> (r: Weight)
        requires
            sum.nanos != 0,
        ensures
            r == share_of(value, sum),
    {
        proof {
            lemma_product_bounds(value.nanos as int, PARTS_PER_WHOLE as int);
            lemma_quotient_bounds(value.nanos * PARTS_PER_WHOLE, sum.nanos as int);
        }
        let wide: i128 = (value.nanos as i128) * PARTS_PER_WHOLE;
        match wide.checked_div_euclid(sum.nanos as i128) {
            Some(q) => Weight { parts: q },
            None => Weight { parts: 0 },
        }
    }
}

impl Decimal {
    /// `self` times a weight, rounded down; nothing where the product leaves
    /// 128 bits or the result cannot be stored.
    pub open spec fn spec_scale(self, weight: Weight) -> Option<Decimal> {
        if fits_wide(self.nanos * weight.parts) {
            narrow((self.nanos * weight.parts) / (PARTS_PER_WHOLE as int))
        } else {
            None
        }
    }

    /// `self` times a weight, rounded down.
    pub fn checked_scale(self, weight: Weight) -> (r: Option<Decimal>)
        ensures
            r == self.spec_scale(weight),
    {
        let wide = match (self.nanos as i128).checked_mul(weight.parts) {
            Some(p) => p,
            None => {
                return None;
            },
        };
        match wide.checked_div_euclid(PARTS_PER_WHOLE) {
            Some(q) => narrow_i128(q),
            None => None,
        }
    }
}

} // verus!
