//! Fixed-point fractions and threshold curves.
//!
//! All curve math is deterministic integer arithmetic on parts-per-billion
//! fractions; no floating point is involved.  A [`Curve`] describes, for each
//! elapsed fraction `x` of a track's decision period, the minimum approval or
//! support fraction `y` a referendum needs in order to be passing.  Thresholds
//! are monotonically non-increasing in `x`, and [`Curve::delay`] is the dual:
//! the least `x` at which a measurement `y` would be passing.

use vstd::prelude::*;

verus! {

/// Number of parts per whole: one billion.
pub const BILL: u32 = 1_000_000_000;

/// A fraction in `[0, 1]`, stored as parts per billion.
#[derive(Clone, Copy, PartialEq, Eq, Structural, Debug)]
pub struct Perbill {
    pub parts: u32,
}

impl Perbill {
    /// The fraction is in range: at most one billion parts.
    pub open spec fn valid(self) -> bool {
        self.parts <= BILL
    }

    /// The zero fraction.
    pub fn zero() -> (r: Self)
        ensures
            r.parts == 0,
            r.valid(),
    {
        Perbill { parts: 0 }
    }

    /// The whole: one billion parts.
    pub fn one() -> (r: Self)
        ensures
            r.parts == BILL,
            r.valid(),
    {
        Perbill { parts: BILL }
    }

    /// Build a fraction from raw parts per billion.
    pub fn from_parts(parts: u32) -> (r: Self)
        requires
            parts <= BILL,
        ensures
            r.parts == parts,
            r.valid(),
    {
        Perbill { parts }
    }

    /// Build a fraction from whole percents.
    pub fn from_percent(p: u32) -> (r: Self)
        requires
            p <= 100,
        ensures
            r.parts == p * 10_000_000,
            r.valid(),
    {
        Perbill { parts: p * 10_000_000 }
    }

    /// Mathematical value of `from_rational`: `p/q` rounded down, saturated
    /// at one; a degenerate denominator also yields one.
    pub open spec fn spec_from_rational(p: u64, q: u64) -> int {
        if p >= q {
            BILL as int
        } else {
            (p * BILL) / (q as int)
        }
    }

    /// The fraction `p/q`, rounded down, saturated at one.
    pub fn from_rational(p: u64, q: u64) -> (r: Self)
        ensures
            r.parts == Self::spec_from_rational(p, q),
            r.valid(),
    {
        if p >= q {
            Self::one()
        } else {
            proof {
                vstd::arithmetic::mul::lemma_mul_upper_bound(
                    p as int, u64::MAX as int, BILL as int, BILL as int);
                vstd::arithmetic::mul::lemma_mul_nonnegative(p as int, BILL as int);
            }
            let v: u128 = (p as u128) * (BILL as u128) / (q as u128);
            proof {
                lemma_div_lt((p * BILL) as int, q as int, BILL as int);
            }
            Perbill { parts: v as u32 }
        }
    }

    /// Mathematical value of `mul_ceil`: `self * b`, rounded up.
    pub open spec fn spec_mul_ceil(self, b: u64) -> int {
        (self.parts * b + (BILL - 1)) / (BILL as int)
    }

    /// Multiply a block count by this fraction, rounding up.
    pub fn mul_ceil(self, b: u64) -> (r: u64)
        requires
            self.valid(),
        ensures
            r == self.spec_mul_ceil(b),
            r <= b,
    {
        proof {
            vstd::arithmetic::mul::lemma_mul_upper_bound(
                self.parts as int, BILL as int, b as int, u64::MAX as int);
            vstd::arithmetic::mul::lemma_mul_nonnegative(self.parts as int, b as int);
        }
        let v: u128 = ((self.parts as u128) * (b as u128) + ((BILL - 1) as u128))
            / (BILL as u128);
        proof {
            lemma_mul_ceil_le(self.parts as int, b as int, BILL as int);
        }
        v as u64
    }
}

/// A threshold curve: the minimum fraction `y` (approval or support) needed
/// for a referendum to be passing, as a function of the elapsed fraction `x`
/// of the decision period.  Thresholds are monotonically non-increasing.
#[derive(Clone, Copy, PartialEq, Eq, Structural, Debug)]
pub enum Curve {
    /// Threshold falls linearly from `ceil` at `x == 0` down to `floor` at
    /// `x == length`, and stays at `floor` afterwards.
    LinearDecreasing { length: Perbill, floor: Perbill, ceil: Perbill },
    /// Threshold starts at `begin` and falls by `step` after every `period`,
    /// never below `end`.
    SteppedDecreasing { begin: Perbill, end: Perbill, step: Perbill, period: Perbill },
    /// Threshold is `factor / (x + x_offset) + y_offset`, capped at one.
    /// `factor` and `x_offset` are in parts per billion.
    Reciprocal { factor: u64, x_offset: u64, y_offset: Perbill },
}

impl Curve {
    /// Parameter sanity: fractions in range, divisors positive.
    pub open spec fn wf(self) -> bool {
        match self {
            Curve::LinearDecreasing { length, floor, ceil } => {
                &&& 1 <= length.parts <= BILL
                &&& floor.parts <= ceil.parts
                &&& ceil.parts <= BILL
            },
            Curve::SteppedDecreasing { begin, end, step, period } => {
                &&& end.parts <= begin.parts
                &&& begin.parts <= BILL
                &&& 1 <= step.parts <= BILL
                &&& 1 <= period.parts <= BILL
            },
            Curve::Reciprocal { factor, x_offset, y_offset } => {
                &&& factor <= BILL
                &&& 1 <= x_offset <= BILL
                &&& y_offset.parts <= BILL
            },
        }
    }

    /// The threshold at elapsed fraction `x`, in parts per billion.
    pub open spec fn spec_threshold(self, x: int) -> int {
        match self {
            Curve::LinearDecreasing { length, floor, ceil } => {
                let xc = vstd::math::min(x, length.parts as int);
                ceil.parts - (xc * (ceil.parts - floor.parts)) / (length.parts as int)
            },
            Curve::SteppedDecreasing { begin, end, step, period } => {
                let fallen = step.parts * (x / (period.parts as int));
                vstd::math::max(end.parts as int, begin.parts - fallen)
            },
            Curve::Reciprocal { factor, x_offset, y_offset } => {
                let v = (factor * BILL) / (x + x_offset) + y_offset.parts;
                vstd::math::min(BILL as int, v)
            },
        }
    }

    /// The least elapsed fraction at which a measurement `y` would meet the
    /// threshold; one billion (the whole period) when it never would.
    pub open spec fn spec_delay(self, y: int) -> int {
        match self {
            Curve::LinearDecreasing { length, floor, ceil } => {
                if y >= ceil.parts {
                    0
                } else if y < floor.parts {
                    BILL as int
                } else {
                    let d = ceil.parts - floor.parts;
                    ((ceil.parts - y) * length.parts + (d - 1)) / d
                }
            },
            Curve::SteppedDecreasing { begin, end, step, period } => {
                if y >= begin.parts {
                    0
                } else if y < end.parts {
                    BILL as int
                } else {
                    let k = ((begin.parts - y) + (step.parts - 1)) / (step.parts as int);
                    vstd::math::min(BILL as int, k * period.parts)
                }
            },
            Curve::Reciprocal { factor, x_offset, y_offset } => {
                if y >= BILL {
                    0
                } else if y < y_offset.parts {
                    BILL as int
                } else {
                    let q = (factor * BILL) / (y - y_offset.parts + 1);
                    if q + 1 <= x_offset {
                        0
                    } else {
                        vstd::math::min(BILL as int, q + 1 - x_offset)
                    }
                }
            },
        }
    }

    /// Whether a measurement `y` meets the threshold at elapsed fraction `x`.
    pub open spec fn spec_passing(self, x: int, y: int) -> bool {
        y >= self.spec_threshold(x)
    }

    /// Evaluate the threshold at elapsed fraction `x`.
    pub fn threshold(&self, x: Perbill) -> (r: Perbill)
        requires
            self.wf(),
            x.valid(),
        ensures
            r.parts == self.spec_threshold(x.parts as int),
            r.valid(),
    {
        proof {
            self.lemma_threshold_in_range(x.parts as int);
        }
        match *self {
            Curve::LinearDecreasing { length, floor, ceil } => {
                let xc: u64 = if x.parts < length.parts { x.parts as u64 } else {
                    length.parts as u64
                };
                let d: u32 = ceil.parts - floor.parts;
                proof {
                    vstd::arithmetic::mul::lemma_mul_upper_bound(
                        xc as int, BILL as int, d as int, BILL as int);
                    vstd::arithmetic::mul::lemma_mul_nonnegative(xc as int, d as int);
                    assert(xc * d < (d + 1) * length.parts) by (nonlinear_arith)
                        requires 0 <= xc <= length.parts, 0 <= d, 1 <= length.parts,
                    {}
                }
                let q: u64 = xc * (d as u64) / (length.parts as u64);
                proof {
                    lemma_div_lt(
                        (xc * d) as int, length.parts as int, (d + 1) as int);
                }
                Perbill { parts: ceil.parts - (q as u32) }
            },
            Curve::SteppedDecreasing { begin, end, step, period } => {
                let k: u32 = x.parts / period.parts;
                proof {
                    vstd::arithmetic::mul::lemma_mul_upper_bound(
                        step.parts as int, BILL as int, k as int, BILL as int);
                    vstd::arithmetic::mul::lemma_mul_nonnegative(
                        step.parts as int, k as int);
                }
                let fallen: u64 = (step.parts as u64) * (k as u64);
                if fallen >= ((begin.parts - end.parts) as u64) {
                    Perbill { parts: end.parts }
                } else {
                    Perbill { parts: begin.parts - (fallen as u32) }
                }
            },
            Curve::Reciprocal { factor, x_offset, y_offset } => {
                let denom: u64 = (x.parts as u64) + x_offset;
                proof {
                    vstd::arithmetic::mul::lemma_mul_upper_bound(
                        factor as int, BILL as int, BILL as int, BILL as int);
                    vstd::arithmetic::mul::lemma_mul_nonnegative(
                        factor as int, BILL as int);
                    lemma_div_le_self((factor * BILL) as int, denom as int);
                }
                let v: u64 = factor * (BILL as u64) / denom + (y_offset.parts as u64);
                if v >= (BILL as u64) {
                    Perbill { parts: BILL }
                } else {
                    Perbill { parts: v as u32 }
                }
            },
        }
    }

    /// Whether measurement `y` is passing at elapsed fraction `x`.
    pub fn passing(&self, x: Perbill, y: Perbill) -> (r: bool)
        requires
            self.wf(),
            x.valid(),
        ensures
            r == self.spec_passing(x.parts as int, y.parts as int),
    {
        let t = self.threshold(x);
        y.parts >= t.parts
    }

    /// The least elapsed fraction at which `y` would be passing.
    pub fn delay(&self, y: Perbill) -> (r: Perbill)
        requires
            self.wf(),
            y.valid(),
        ensures
            r.parts == self.spec_delay(y.parts as int),
            r.valid(),
    {
        proof {
            self.lemma_delay_in_range(y.parts as int);
        }
        match *self {
            Curve::LinearDecreasing { length, floor, ceil } => {
                if y.parts >= ceil.parts {
                    Perbill { parts: 0 }
                } else if y.parts < floor.parts {
                    Perbill { parts: BILL }
                } else {
                    let d: u32 = ceil.parts - floor.parts;
                    proof {
                        vstd::arithmetic::mul::lemma_mul_upper_bound(
                            (ceil.parts - y.parts) as int, BILL as int,
                            length.parts as int, BILL as int);
                        vstd::arithmetic::mul::lemma_mul_nonnegative(
                            (ceil.parts - y.parts) as int, length.parts as int);
                    }
                    let a: u64 = ((ceil.parts - y.parts) as u64) * (length.parts as u64);
                    let r64: u64 = (a + ((d - 1) as u64)) / (d as u64);
                    Perbill { parts: r64 as u32 }
                }
            },
            Curve::SteppedDecreasing { begin, end, step, period } => {
                if y.parts >= begin.parts {
                    Perbill { parts: 0 }
                } else if y.parts < end.parts {
                    Perbill { parts: BILL }
                } else {
                    let k: u64 = (((begin.parts - y.parts) + (step.parts - 1)) as u64)
                        / (step.parts as u64);
                    proof {
                        lemma_div_le_self(
                            ((begin.parts - y.parts) + (step.parts - 1)) as int,
                            step.parts as int);
                        vstd::arithmetic::mul::lemma_mul_upper_bound(
                            k as int, 2 * BILL as int, period.parts as int, BILL as int);
                        vstd::arithmetic::mul::lemma_mul_nonnegative(
                            k as int, period.parts as int);
                    }
                    let prod: u64 = k * (period.parts as u64);
                    if prod >= (BILL as u64) {
                        Perbill { parts: BILL }
                    } else {
                        Perbill { parts: prod as u32 }
                    }
                }
            },
            Curve::Reciprocal { factor, x_offset, y_offset } => {
                if y.parts >= BILL {
                    Perbill { parts: 0 }
                } else if y.parts < y_offset.parts {
                    Perbill { parts: BILL }
                } else {
                    let d: u64 = ((y.parts - y_offset.parts) as u64) + 1;
                    proof {
                        vstd::arithmetic::mul::lemma_mul_upper_bound(
                            factor as int, BILL as int, BILL as int, BILL as int);
                        vstd::arithmetic::mul::lemma_mul_nonnegative(
                            factor as int, BILL as int);
                        lemma_div_le_self((factor * BILL) as int, d as int);
                    }
                    let q: u64 = factor * (BILL as u64) / d;
                    if q + 1 <= x_offset {
                        Perbill { parts: 0 }
                    } else {
                        let v: u64 = q + 1 - x_offset;
                        if v >= (BILL as u64) {
                            Perbill { parts: BILL }
                        } else {
                            Perbill { parts: v as u32 }
                        }
                    }
                }
            },
        }
    }

    /// Thresholds stay within `[0, 1]`; a linear curve in particular stays
    /// within `[floor, ceil]` and a stepped one within `[end, begin]`.
    pub proof fn lemma_threshold_in_range(self, x: int)
        requires
            self.wf(),
            0 <= x,
        ensures
            0 <= self.spec_threshold(x) <= BILL,
            self matches Curve::LinearDecreasing { length, floor, ceil }
                ==> floor.parts <= self.spec_threshold(x) <= ceil.parts,
            self matches Curve::SteppedDecreasing { begin, end, step, period }
                ==> end.parts <= self.spec_threshold(x) <= begin.parts,
    {
        match self {
            Curve::LinearDecreasing { length, floor, ceil } => {
                let len = length.parts as int;
                let d = ceil.parts - floor.parts;
                let xc = vstd::math::min(x, len);
                vstd::arithmetic::mul::lemma_mul_nonnegative(xc, d);
                assert(xc * d <= len * d) by (nonlinear_arith)
                    requires 0 <= xc <= len, 0 <= d,
                {}
                vstd::arithmetic::div_mod::lemma_div_is_ordered(xc * d, len * d, len);
                vstd::arithmetic::div_mod::lemma_fundamental_div_mod(len * d, len);
                assert((len * d) / len == d) by (nonlinear_arith)
                    requires
                        len > 0,
                        len * d == len * ((len * d) / len) + (len * d) % len,
                        0 <= (len * d) % len < len,
                {}
                assert((xc * d) / len >= 0) by {
                    vstd::arithmetic::div_mod::lemma_div_is_ordered(0, xc * d, len);
                }
            },
            Curve::SteppedDecreasing { begin, end, step, period } => {
                let p = period.parts as int;
                vstd::arithmetic::div_mod::lemma_div_is_ordered(0, x, p);
                vstd::arithmetic::mul::lemma_mul_nonnegative(step.parts as int, x / p);
            },
            Curve::Reciprocal { factor, x_offset, y_offset } => {
                let f = factor * BILL;
                vstd::arithmetic::mul::lemma_mul_nonnegative(factor as int, BILL as int);
                vstd::arithmetic::div_mod::lemma_div_is_ordered(0, f, x + x_offset);
            },
        }
    }

    /// Delays stay within `[0, 1]`.
    pub proof fn lemma_delay_in_range(self, y: int)
        requires
            self.wf(),
            0 <= y,
        ensures
            0 <= self.spec_delay(y) <= BILL,
    {
        match self {
            Curve::LinearDecreasing { length, floor, ceil } => {
                if floor.parts <= y < ceil.parts {
                    let len = length.parts as int;
                    let d = ceil.parts - floor.parts;
                    let a = (ceil.parts - y) * len;
                    assert(0 <= a + (d - 1) && a + (d - 1) <= d * len + (d - 1))
                        by (nonlinear_arith)
                        requires
                            a == (ceil.parts - y) * len,
                            0 < ceil.parts - y <= d,
                            1 <= len,
                    {}
                    vstd::arithmetic::div_mod::lemma_fundamental_div_mod(a + (d - 1), d);
                    assert(0 <= (a + (d - 1)) / d <= len) by (nonlinear_arith)
                        requires
                            d > 0,
                            a + (d - 1) == d * ((a + (d - 1)) / d) + (a + (d - 1)) % d,
                            0 <= (a + (d - 1)) % d < d,
                            0 <= a + (d - 1) <= d * len + (d - 1),
                    {}
                }
            },
            Curve::SteppedDecreasing { begin, end, step, period } => {
                if end.parts <= y < begin.parts {
                    let k = ((begin.parts - y) + (step.parts - 1)) / (step.parts as int);
                    vstd::arithmetic::div_mod::lemma_div_is_ordered(
                        0, (begin.parts - y) + (step.parts - 1), step.parts as int);
                    vstd::arithmetic::mul::lemma_mul_nonnegative(k, period.parts as int);
                }
            },
            Curve::Reciprocal { factor, x_offset, y_offset } => {
                if y_offset.parts <= y < BILL {
                    let q = (factor * BILL) / (y - y_offset.parts + 1);
                    vstd::arithmetic::mul::lemma_mul_nonnegative(factor as int, BILL as int);
                    vstd::arithmetic::div_mod::lemma_div_is_ordered(
                        0, factor * BILL, y - y_offset.parts + 1);
                }
            },
        }
    }
}

impl Curve {
    /// Law: thresholds are monotonically non-increasing in the elapsed
    /// fraction.
    pub proof fn lemma_threshold_monotone(self, x1: int, x2: int)
        requires
            self.wf(),
            0 <= x1 <= x2,
        ensures
            self.spec_threshold(x1) >= self.spec_threshold(x2),
    {
        match self {
            Curve::LinearDecreasing { length, floor, ceil } => {
                let len = length.parts as int;
                let d = ceil.parts - floor.parts;
                let xc1 = vstd::math::min(x1, len);
                let xc2 = vstd::math::min(x2, len);
                assert(xc1 * d <= xc2 * d) by (nonlinear_arith)
                    requires 0 <= xc1 <= xc2, 0 <= d,
                {}
                vstd::arithmetic::div_mod::lemma_div_is_ordered(xc1 * d, xc2 * d, len);
            },
            Curve::SteppedDecreasing { begin, end, step, period } => {
                let p = period.parts as int;
                let s = step.parts as int;
                vstd::arithmetic::div_mod::lemma_div_is_ordered(x1, x2, p);
                assert(s * (x1 / p) <= s * (x2 / p)) by (nonlinear_arith)
                    requires 0 <= s, x1 / p <= x2 / p,
                {}
            },
            Curve::Reciprocal { factor, x_offset, y_offset } => {
                vstd::arithmetic::mul::lemma_mul_nonnegative(factor as int, BILL as int);
                vstd::arithmetic::div_mod::lemma_div_is_ordered_by_denominator(
                    factor * BILL, x1 + x_offset, x2 + x_offset);
            },
        }
    }

    /// Law, first half of the duality: strictly before `delay(y)`, the
    /// measurement `y` is not yet passing.
    pub proof fn lemma_delay_is_least(self, y: int, x: int)
        requires
            self.wf(),
            0 <= y,
            0 <= x < self.spec_delay(y),
        ensures
            self.spec_threshold(x) > y,
    {
        self.lemma_threshold_in_range(x);
        match self {
            Curve::LinearDecreasing { length, floor, ceil } => {
                if y >= ceil.parts {
                    // delay is zero; no x lies below it.
                } else if y < floor.parts {
                    // threshold never falls below the floor.
                } else {
                    let len = length.parts as int;
                    let d = ceil.parts - floor.parts;
                    let a = (ceil.parts - y) * len;
                    let dd = (a + (d - 1)) / d;
                    vstd::arithmetic::div_mod::lemma_fundamental_div_mod(a + (d - 1), d);
                    assert(x * d < a) by (nonlinear_arith)
                        requires
                            d >= 1,
                            x < dd,
                            a + (d - 1) == d * dd + (a + (d - 1)) % d,
                            0 <= (a + (d - 1)) % d < d,
                            0 <= x,
                    {}
                    assert(a <= d * len) by (nonlinear_arith)
                        requires
                            a == (ceil.parts - y) * len,
                            0 < ceil.parts - y <= d,
                            0 <= len,
                    {}
                    assert(x < len) by (nonlinear_arith)
                        requires
                            x * d < a,
                            a <= d * len,
                            d >= 1,
                            0 <= x,
                    {}
                    let xc = vstd::math::min(x, len);
                    lemma_div_lt(xc * d, len, ceil.parts - y);
                }
            },
            Curve::SteppedDecreasing { begin, end, step, period } => {
                if y >= begin.parts {
                } else if y < end.parts {
                } else {
                    let p = period.parts as int;
                    let s = step.parts as int;
                    let b0 = begin.parts - y;
                    let k = (b0 + (s - 1)) / s;
                    vstd::arithmetic::div_mod::lemma_fundamental_div_mod(b0 + (s - 1), s);
                    assert(s * (k - 1) < b0) by (nonlinear_arith)
                        requires
                            s >= 1,
                            b0 + (s - 1) == s * k + (b0 + (s - 1)) % s,
                            0 <= (b0 + (s - 1)) % s,
                    {}
                    assert(x < k * p);
                    lemma_div_lt(x, p, k);
                    assert(s * (x / p) <= s * (k - 1)) by (nonlinear_arith)
                        requires s >= 0, x / p <= k - 1,
                    {}
                }
            },
            Curve::Reciprocal { factor, x_offset, y_offset } => {
                let f = factor * BILL;
                vstd::arithmetic::mul::lemma_mul_nonnegative(factor as int, BILL as int);
                if y >= BILL {
                } else if y < y_offset.parts {
                    vstd::arithmetic::div_mod::lemma_div_is_ordered(
                        0, f, x + x_offset);
                } else {
                    let d = y - y_offset.parts;
                    let q = f / (d + 1);
                    if q + 1 <= x_offset {
                    } else {
                        assert(x + x_offset <= q);
                        vstd::arithmetic::div_mod::lemma_fundamental_div_mod(f, d + 1);
                        assert((d + 1) * (x + x_offset) <= f) by (nonlinear_arith)
                            requires
                                d + 1 >= 1,
                                x + x_offset <= q,
                                f == (d + 1) * q + f % (d + 1),
                                0 <= f % (d + 1),
                                0 <= x + x_offset,
                        {}
                        lemma_div_ge(f, x + x_offset, d + 1);
                    }
                }
            },
        }
    }

    /// Law, second half of the duality: if `y` is passing anywhere within the
    /// period, then `delay(y)` is the least such point and `y` passes there.
    pub proof fn lemma_delay_passes(self, y: int, x: int)
        requires
            self.wf(),
            0 <= y <= BILL,
            0 <= x <= BILL,
            self.spec_threshold(x) <= y,
        ensures
            self.spec_delay(y) <= x,
            self.spec_threshold(self.spec_delay(y)) <= y,
    {
        if self.spec_delay(y) > x {
            self.lemma_delay_is_least(y, x);
            assert(false);
        }
        let dl = self.spec_delay(y);
        if dl == BILL {
            // Then x is the whole period itself, where y is known to pass.
            assert(x == BILL);
        } else {
            match self {
                Curve::LinearDecreasing { length, floor, ceil } => {
                    let len = length.parts as int;
                    let d = ceil.parts - floor.parts;
                    if y >= ceil.parts {
                        assert(vstd::math::min(0, len) == 0);
                        vstd::arithmetic::div_mod::lemma_div_of0(len);
                        assert((0 as int) * d == 0) by (nonlinear_arith) {}
                    } else {
                        // floor <= y < ceil, and dl is the ceiling division.
                        let a = (ceil.parts - y) * len;
                        vstd::arithmetic::div_mod::lemma_fundamental_div_mod(
                            a + (d - 1), d);
                        assert(d * dl >= a) by (nonlinear_arith)
                            requires
                                d >= 1,
                                a + (d - 1) == d * dl + (a + (d - 1)) % d,
                                0 <= (a + (d - 1)) % d < d,
                        {}
                        assert(a <= d * len) by (nonlinear_arith)
                            requires
                                a == (ceil.parts - y) * len,
                                0 < ceil.parts - y <= d,
                                0 <= len,
                        {}
                        assert(dl <= len) by (nonlinear_arith)
                            requires
                                d * dl >= a,
                                d * dl <= a + (d - 1),
                                a <= d * len,
                                d >= 1,
                                0 <= dl,
                                1 <= len,
                        {}
                        assert(vstd::math::min(dl, len) == dl);
                        lemma_div_ge(dl * d, len, ceil.parts - y);
                    }
                },
                Curve::SteppedDecreasing { begin, end, step, period } => {
                    let p = period.parts as int;
                    let s = step.parts as int;
                    if y >= begin.parts {
                        vstd::arithmetic::div_mod::lemma_div_of0(p);
                        assert(s * (0 as int) == 0) by (nonlinear_arith) {}
                    } else {
                        let b0 = begin.parts - y;
                        let k = (b0 + (s - 1)) / s;
                        assert(dl == k * p);
                        vstd::arithmetic::div_mod::lemma_div_multiples_vanish(k, p);
                        assert((k * p) / p == k) by {
                            assert(k * p == p * k) by (nonlinear_arith) {}
                        }
                        vstd::arithmetic::div_mod::lemma_fundamental_div_mod(
                            b0 + (s - 1), s);
                        assert(s * k >= b0) by (nonlinear_arith)
                            requires
                                s >= 1,
                                b0 + (s - 1) == s * k + (b0 + (s - 1)) % s,
                                0 <= (b0 + (s - 1)) % s < s,
                        {}
                    }
                },
                Curve::Reciprocal { factor, x_offset, y_offset } => {
                    let f = factor * BILL;
                    vstd::arithmetic::mul::lemma_mul_nonnegative(
                        factor as int, BILL as int);
                    if y >= BILL {
                        vstd::arithmetic::div_mod::lemma_div_is_ordered(
                            0, f, 0 + x_offset);
                    } else {
                        let d = y - y_offset.parts;
                        let q = f / (d + 1);
                        vstd::arithmetic::div_mod::lemma_fundamental_div_mod(f, d + 1);
                        if q + 1 <= x_offset {
                            assert(dl == 0);
                            assert(f < (d + 1) * x_offset) by (nonlinear_arith)
                                requires
                                    d + 1 >= 1,
                                    f == (d + 1) * q + f % (d + 1),
                                    0 <= f % (d + 1) < d + 1,
                                    q + 1 <= x_offset,
                            {}
                            lemma_div_lt(f, x_offset as int, d + 1);
                        } else {
                            assert(dl == q + 1 - x_offset);
                            assert(f < (d + 1) * (q + 1)) by (nonlinear_arith)
                                requires
                                    d + 1 >= 1,
                                    f == (d + 1) * q + f % (d + 1),
                                    0 <= f % (d + 1) < d + 1,
                            {}
                            lemma_div_lt(f, q + 1, d + 1);
                        }
                    }
                },
            }
        }
    }
}

/// For `b >= 1` and `a >= b * c`, the quotient `a / b` reaches `c`.
proof fn lemma_div_ge(a: int, b: int, c: int)
    requires
        1 <= b,
        0 <= a,
        b * c <= a,
    ensures
        a / b >= c,
{
    vstd::arithmetic::div_mod::lemma_fundamental_div_mod(a, b);
    assert(a / b >= c) by (nonlinear_arith)
        requires
            b >= 1,
            a == b * (a / b) + a % b,
            0 <= a % b < b,
            b * c <= a,
    {}
}

/// Dividing a non-negative number by a positive one never increases it.
proof fn lemma_div_le_self(a: int, b: int)
    requires
        0 <= a,
        1 <= b,
    ensures
        0 <= a / b <= a,
{
    vstd::arithmetic::div_mod::lemma_fundamental_div_mod(a, b);
    assert(0 <= a / b <= a) by (nonlinear_arith)
        requires
            b >= 1,
            a >= 0,
            a == b * (a / b) + a % b,
            0 <= a % b < b,
    {}
}

/// For `a < c * q` with positive `q`, the quotient `a / q` stays below `c`.
proof fn lemma_div_lt(a: int, q: int, c: int)
    requires
        q > 0,
        0 <= a,
        a < c * q,
    ensures
        a / q < c,
{
    vstd::arithmetic::div_mod::lemma_fundamental_div_mod(a, q);
    assert(a / q < c) by (nonlinear_arith)
        requires
            q > 0,
            a == q * (a / q) + a % q,
            0 <= a % q,
            a < c * q,
    {}
}

/// Ceiling multiplication by a fraction of at most one does not exceed `b`.
proof fn lemma_mul_ceil_le(parts: int, b: int, bill: int)
    requires
        bill > 0,
        0 <= parts <= bill,
        0 <= b,
    ensures
        0 <= (parts * b + (bill - 1)) / bill <= b,
{
    let a = parts * b + (bill - 1);
    assert(0 <= a && a <= bill * b + (bill - 1)) by (nonlinear_arith)
        requires
            bill > 0,
            0 <= parts <= bill,
            0 <= b,
            a == parts * b + (bill - 1),
    {}
    vstd::arithmetic::div_mod::lemma_fundamental_div_mod(a, bill);
    assert(a / bill <= b) by (nonlinear_arith)
        requires
            bill > 0,
            a == bill * (a / bill) + a % bill,
            0 <= a % bill,
            a <= bill * b + (bill - 1),
    {}
    assert(a / bill >= 0) by (nonlinear_arith)
        requires
            bill > 0,
            a == bill * (a / bill) + a % bill,
            a % bill < bill,
            0 <= a,
    {}
}

} // verus!
