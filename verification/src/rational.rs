//! Exact rational numbers over 128-bit integers.
//!
//! Normalized probabilities, scale bounds and index weights are decimal
//! numbers in the service's data; they are held here exactly as a
//! numerator/denominator pair. The arithmetic is checked: an operation
//! whose components would leave the 128-bit range reports failure instead
//! of wrapping, and each operation's contract says precisely when that
//! happens.

use vstd::prelude::*;

verus! {

/// Largest component magnitude (2^62) under which two rationals can be
/// compared by cross multiplication without leaving the 128-bit range.
pub const CMP_COMPONENT_BOUND: i128 = 0x4000_0000_0000_0000;

/// An exact rational number `num / den`; well-formed values have `den > 0`.
#[derive(Clone, Copy, PartialEq, Eq, Debug)]
pub struct Rational {
    pub num: i128,
    pub den: i128,
}

/// `x` fits in a 128-bit signed integer.
pub open spec fn in_range(x: int) -> bool {
    i128::MIN <= x <= i128::MAX
}

/// `a` and `b` denote the same rational value (cross multiplication).
pub open spec fn rat_eq(a: Rational, b: Rational) -> bool {
    a.num * b.den == b.num * a.den
}

/// `a <= b` as rational values (valid for well-formed `a` and `b`).
pub open spec fn rat_le(a: Rational, b: Rational) -> bool {
    a.num * b.den <= b.num * a.den
}

/// `a <= t` for an integer `t`.
pub open spec fn rat_le_int(a: Rational, t: int) -> bool {
    a.num <= t * a.den
}

/// The sum `a + b`, or `None` where a component leaves the 128-bit range.
pub open spec fn rat_add(a: Rational, b: Rational) -> Option<Rational> {
    let n1 = a.num * b.den;
    let n2 = b.num * a.den;
    let n = n1 + n2;
    let d = a.den * b.den;
    if in_range(n1) && in_range(n2) && in_range(n) && in_range(d) {
        Some(Rational { num: n as i128, den: d as i128 })
    } else {
        None
    }
}

/// The difference `a - b`, or `None` where a component leaves the range.
pub open spec fn rat_sub(a: Rational, b: Rational) -> Option<Rational> {
    let n1 = a.num * b.den;
    let n2 = b.num * a.den;
    let n = n1 - n2;
    let d = a.den * b.den;
    if in_range(n1) && in_range(n2) && in_range(n) && in_range(d) {
        Some(Rational { num: n as i128, den: d as i128 })
    } else {
        None
    }
}

/// The product `a * b`, or `None` where a component leaves the range.
pub open spec fn rat_mul(a: Rational, b: Rational) -> Option<Rational> {
    let n = a.num * b.num;
    let d = a.den * b.den;
    if in_range(n) && in_range(d) {
        Some(Rational { num: n as i128, den: d as i128 })
    } else {
        None
    }
}

/// The rational zero.
pub open spec fn spec_zero() -> Rational {
    Rational { num: 0, den: 1 }
}

impl Rational {
    /// Well-formed: the denominator is positive.
    pub open spec fn wf(self) -> bool {
        self.den > 0
    }

    /// Small enough that this rational can take part in cross-multiplied
    /// comparisons without leaving the 128-bit range.
    pub open spec fn small(self) -> bool {
        &&& self.den <= CMP_COMPONENT_BOUND
        &&& -CMP_COMPONENT_BOUND <= self.num <= CMP_COMPONENT_BOUND
    }

    /// Makes `num / den`; fails exactly when `den` is not positive.
    pub fn new(num: i128, den: i128) -> (r: Option<Rational>)
        ensures
            r == if den > 0 {
                Some(Rational { num, den })
            } else {
                None::<Rational>
            },
            r matches Some(q) ==> q.wf(),
    {
        if den > 0 {
            Some(Rational { num, den })
        } else {
            None
        }
    }

    /// The rational with the value of the integer `n`.
    pub fn from_int(n: i64) -> (r: Rational)
        ensures
            r == (Rational { num: n as i128, den: 1i128 }),
            r.wf(),
    {
        Rational { num: n as i128, den: 1 }
    }

    /// The rational zero.
    pub fn zero() -> (r: Rational)
        ensures
            r == spec_zero(),
            r.wf(),
            r.small(),
    {
        Rational { num: 0, den: 1 }
    }

    /// Checked sum; `None` exactly when a component of the exact result
    /// leaves the 128-bit range.
    pub fn add(&self, other: &Rational) -> (r: Option<Rational>)
        ensures
            r == rat_add(*self, *other),
            self.wf() && other.wf() && r is Some ==> r.unwrap().wf(),
    {
        let n1 = match self.num.checked_mul(other.den) {
            Some(v) => v,
            None => {
                return None;
            },
        };
        let n2 = match other.num.checked_mul(self.den) {
            Some(v) => v,
            None => {
                return None;
            },
        };
        let n = match n1.checked_add(n2) {
            Some(v) => v,
            None => {
                return None;
            },
        };
        let d = match self.den.checked_mul(other.den) {
            Some(v) => v,
            None => {
                return None;
            },
        };
        proof {
            if self.wf() && other.wf() {
                assert(self.den * other.den > 0) by (nonlinear_arith)
                    requires
                        self.den > 0,
                        other.den > 0,
                ;
            }
        }
        Some(Rational { num: n, den: d })
    }

    /// Checked difference; `None` exactly when a component of the exact
    /// result leaves the 128-bit range.
    pub fn sub(&self, other: &Rational) -> (r: Option<Rational>)
        ensures
            r == rat_sub(*self, *other),
            self.wf() && other.wf() && r is Some ==> r.unwrap().wf(),
    {
        let n1 = match self.num.checked_mul(other.den) {
            Some(v) => v,
            None => {
                return None;
            },
        };
        let n2 = match other.num.checked_mul(self.den) {
            Some(v) => v,
            None => {
                return None;
            },
        };
        let n = match n1.checked_sub(n2) {
            Some(v) => v,
            None => {
                return None;
            },
        };
        let d = match self.den.checked_mul(other.den) {
            Some(v) => v,
            None => {
                return None;
            },
        };
        proof {
            if self.wf() && other.wf() {
                assert(self.den * other.den > 0) by (nonlinear_arith)
                    requires
                        self.den > 0,
                        other.den > 0,
                ;
            }
        }
        Some(Rational { num: n, den: d })
    }

    /// Checked product; `None` exactly when a component of the exact
    /// result leaves the 128-bit range.
    pub fn mul(&self, other: &Rational) -> (r: Option<Rational>)
        ensures
            r == rat_mul(*self, *other),
            self.wf() && other.wf() && r is Some ==> r.unwrap().wf(),
    {
        let n = match self.num.checked_mul(other.num) {
            Some(v) => v,
            None => {
                return None;
            },
        };
        let d = match self.den.checked_mul(other.den) {
            Some(v) => v,
            None => {
                return None;
            },
        };
        proof {
            if self.wf() && other.wf() {
                assert(self.den * other.den > 0) by (nonlinear_arith)
                    requires
                        self.den > 0,
                        other.den > 0,
                ;
            }
        }
        Some(Rational { num: n, den: d })
    }

    /// Whether this value is at most the integer `t`.
    pub fn le_int(&self, t: i64) -> (r: bool)
        requires
            self.wf(),
            self.small(),
        ensures
            r == rat_le_int(*self, t as int),
    {
        proof {
            assert(in_range((t as int) * self.den)) by (nonlinear_arith)
                requires
                    0 < self.den <= CMP_COMPONENT_BOUND,
                    i64::MIN <= t <= i64::MAX,
            ;
        }
        self.num <= (t as i128) * self.den
    }

    /// Whether this value is at most `other`.
    pub fn le(&self, other: &Rational) -> (r: bool)
        requires
            self.wf(),
            self.small(),
            other.wf(),
            other.small(),
        ensures
            r == rat_le(*self, *other),
    {
        proof {
            assert(in_range(self.num * other.den) && in_range(other.num * self.den))
                by (nonlinear_arith)
                requires
                    0 < self.den <= CMP_COMPONENT_BOUND,
                    0 < other.den <= CMP_COMPONENT_BOUND,
                    -CMP_COMPONENT_BOUND <= self.num <= CMP_COMPONENT_BOUND,
                    -CMP_COMPONENT_BOUND <= other.num <= CMP_COMPONENT_BOUND,
            ;
        }
        self.num * other.den <= other.num * self.den
    }

    /// Whether this value equals `other`; `None` where the cross products
    /// leave the 128-bit range.
    pub fn same_value(&self, other: &Rational) -> (r: Option<bool>)
        ensures
            r matches Some(b) ==> (b <==> rat_eq(*self, *other)),
            in_range(self.num * other.den) && in_range(other.num * self.den) ==> r is Some,
    {
        let x = match self.num.checked_mul(other.den) {
            Some(v) => v,
            None => {
                return None;
            },
        };
        let y = match other.num.checked_mul(self.den) {
            Some(v) => v,
            None => {
                return None;
            },
        };
        Some(x == y)
    }
}

/// Rational order is transitive over well-formed values.
pub proof fn lemma_rat_le_trans(a: Rational, b: Rational, c: Rational)
    requires
        a.wf(),
        b.wf(),
        c.wf(),
        rat_le(a, b),
        rat_le(b, c),
    ensures
        rat_le(a, c),
{
    assert(a.num * c.den <= c.num * a.den) by (nonlinear_arith)
        requires
            a.den > 0,
            b.den > 0,
            c.den > 0,
            a.num * b.den <= b.num * a.den,
            b.num * c.den <= c.num * b.den,
    ;
}

/// A product of well-formed rationals is well-formed.
pub proof fn lemma_rat_mul_wf(a: Rational, b: Rational, c: Rational)
    requires
        a.wf(),
        b.wf(),
        rat_mul(a, b) == Some(c),
    ensures
        c.wf(),
{
    assert(a.den * b.den > 0) by (nonlinear_arith)
        requires
            a.den > 0,
            b.den > 0,
    ;
}

/// A difference of well-formed rationals is well-formed.
pub proof fn lemma_rat_sub_wf(a: Rational, b: Rational, c: Rational)
    requires
        a.wf(),
        b.wf(),
        rat_sub(a, b) == Some(c),
    ensures
        c.wf(),
{
    assert(a.den * b.den > 0) by (nonlinear_arith)
        requires
            a.den > 0,
            b.den > 0,
    ;
}

/// Adding the same well-formed value to both sides preserves rational order.
pub proof fn lemma_rat_le_add_right(a: Rational, b: Rational, c: Rational, ra: Rational, rb: Rational)
    requires
        a.wf(),
        b.wf(),
        c.wf(),
        rat_le(a, b),
        rat_add(a, c) == Some(ra),
        rat_add(b, c) == Some(rb),
    ensures
        rat_le(ra, rb),
{
    assert((a.num * c.den + c.num * a.den) * (b.den * c.den) <= (b.num * c.den + c.num * b.den) * (
    a.den * c.den)) by (nonlinear_arith)
        requires
            a.den > 0,
            b.den > 0,
            c.den > 0,
            a.num * b.den <= b.num * a.den,
    ;
}

/// Multiplying both sides by the same nonnegative well-formed value
/// preserves rational order.
pub proof fn lemma_rat_le_mul_nonneg(a: Rational, b: Rational, c: Rational, ra: Rational, rb: Rational)
    requires
        a.wf(),
        b.wf(),
        c.wf(),
        c.num >= 0,
        rat_le(a, b),
        rat_mul(a, c) == Some(ra),
        rat_mul(b, c) == Some(rb),
    ensures
        rat_le(ra, rb),
{
    assert((a.num * c.num) * (b.den * c.den) <= (b.num * c.num) * (a.den * c.den))
        by (nonlinear_arith)
        requires
            a.den > 0,
            b.den > 0,
            c.den > 0,
            c.num >= 0,
            a.num * b.den <= b.num * a.den,
    ;
}

} // verus!
