//! The arithmetic capabilities a value type must offer to drive the
//! spaced-sequence generator, together with `Rat`, an exact rational
//! number type implementing them.

use vstd::prelude::*;

verus! {

/// Whether a mathematical integer is representable as an `i64`.
pub open spec fn fits_i64(x: int) -> bool {
    i64::MIN as int <= x && x <= i64::MAX as int
}

/// The operations the spaced-sequence generator needs from its element
/// type: copyable values with addition (for stepping), subtraction and
/// division (for the step computation), and a conversion from element
/// counts.
///
/// Each executable operation is pinned to a specification-level
/// counterpart, so that contracts over the generator can name the exact
/// values it produces.
pub trait Numeric: Sized + Copy {
    /// What `plus` returns.
    spec fn plus_spec(self, other: Self) -> Self;

    /// What `minus` returns.
    spec fn minus_spec(self, other: Self) -> Self;

    /// What `divided_by` returns.
    spec fn divided_by_spec(self, other: Self) -> Self;

    /// What `from_count` returns.
    spec fn from_count_spec(n: usize) -> Self;

    fn plus(self, other: Self) -> (r: Self)
        ensures
            r == self.plus_spec(other),
    ;

    fn minus(self, other: Self) -> (r: Self)
        ensures
            r == self.minus_spec(other),
    ;

    fn divided_by(self, other: Self) -> (r: Self)
        ensures
            r == self.divided_by_spec(other),
    ;

    fn from_count(n: usize) -> (r: Self)
        ensures
            r == Self::from_count_spec(n),
    ;
}

/// An exact rational number `num / den`.
///
/// Results are not kept normalized: `1/2` and `2/4` are distinct
/// representations of the same value, compared with [`Rat::eq_value`].
/// Every operation is total. When an exact result would not fit in the
/// `i64` components, the operation falls back to returning its left
/// operand unchanged; the `*_exact` predicates in this module say when
/// that does not happen. Dividing by a zero-valued rational yields a
/// value with `den == 0`, the rational analogue of an infinite or
/// undefined result; such a value compares meaninglessly and the laws
/// about sequences of `Rat` assume [`Rat::valid`] operands.
#[derive(Clone, Copy, Debug, PartialEq, Eq, Structural)]
pub struct Rat {
    pub num: i64,
    pub den: i64,
}

/// The exact sum of two rationals, with the overflow fallback.
pub open spec fn rat_add(x: Rat, y: Rat) -> Rat {
    let n = x.num * y.den + y.num * x.den;
    let d = x.den * y.den;
    if fits_i64(n) && fits_i64(d) {
        Rat { num: n as i64, den: d as i64 }
    } else {
        x
    }
}

/// The exact difference of two rationals, with the overflow fallback.
pub open spec fn rat_sub(x: Rat, y: Rat) -> Rat {
    let n = x.num * y.den - y.num * x.den;
    let d = x.den * y.den;
    if fits_i64(n) && fits_i64(d) {
        Rat { num: n as i64, den: d as i64 }
    } else {
        x
    }
}

/// The exact quotient of two rationals, with the overflow fallback.
/// Dividing by a zero-valued rational yields a `den == 0` result.
pub open spec fn rat_div(x: Rat, y: Rat) -> Rat {
    let n = x.num * y.den;
    let d = x.den * y.num;
    if fits_i64(n) && fits_i64(d) {
        Rat { num: n as i64, den: d as i64 }
    } else {
        x
    }
}

/// The rational for a count: `n / 1`, saturating at `i64::MAX`.
pub open spec fn rat_from_count(n: usize) -> Rat {
    if n <= i64::MAX {
        Rat { num: n as i64, den: 1 }
    } else {
        Rat { num: i64::MAX, den: 1 }
    }
}

/// `rat_add(x, y)` is the exact sum (no overflow fallback).
pub open spec fn add_exact(x: Rat, y: Rat) -> bool {
    fits_i64(x.num * y.den + y.num * x.den) && fits_i64(x.den * y.den)
}

/// `rat_sub(x, y)` is the exact difference (no overflow fallback).
pub open spec fn sub_exact(x: Rat, y: Rat) -> bool {
    fits_i64(x.num * y.den - y.num * x.den) && fits_i64(x.den * y.den)
}

/// `rat_div(x, y)` is the exact quotient (no overflow fallback).
pub open spec fn div_exact(x: Rat, y: Rat) -> bool {
    fits_i64(x.num * y.den) && fits_i64(x.den * y.num)
}

/// The product of two `i64`-sized values stays well inside `i128`.
proof fn lemma_prod_bound(a: int, b: int)
    by (nonlinear_arith)
    requires
        i64::MIN as int <= a && a <= i64::MAX as int,
        i64::MIN as int <= b && b <= i64::MAX as int,
    ensures
        -0x4000_0000_0000_0000_0000_0000_0000_0000 <= a * b,
        a * b <= 0x4000_0000_0000_0000_0000_0000_0000_0000,
{
}

impl Rat {
    /// A usable rational: the denominator is nonzero.
    pub open spec fn valid(self) -> bool {
        self.den != 0
    }

    /// Whether two rationals denote the same value, by cross
    /// multiplication. Meaningful when both are [`Rat::valid`].
    pub open spec fn same_value(self, other: Rat) -> bool {
        self.num * other.den == other.num * self.den
    }

    /// Builds the rational `num / den`, as given, unnormalized.
    pub fn new(num: i64, den: i64) -> (r: Rat)
        ensures
            r.num == num,
            r.den == den,
    {
        Rat { num: num, den: den }
    }

    /// Whether `self` and `other` denote the same rational value.
    pub fn eq_value(&self, other: &Rat) -> (r: bool)
        ensures
            r == self.same_value(*other),
    {
        proof {
            lemma_prod_bound(self.num as int, other.den as int);
            lemma_prod_bound(other.num as int, self.den as int);
        }
        (self.num as i128) * (other.den as i128) == (other.num as i128) * (self.den as i128)
    }
}

impl Numeric for Rat {
    open spec fn plus_spec(self, other: Self) -> Rat {
        rat_add(self, other)
    }

    open spec fn minus_spec(self, other: Self) -> Rat {
        rat_sub(self, other)
    }

    open spec fn divided_by_spec(self, other: Self) -> Rat {
        rat_div(self, other)
    }

    open spec fn from_count_spec(n: usize) -> Rat {
        rat_from_count(n)
    }

    fn plus(self, other: Self) -> (r: Self) {
        let a: i128 = self.num as i128;
        let b: i128 = self.den as i128;
        let c: i128 = other.num as i128;
        let d: i128 = other.den as i128;
        proof {
            lemma_prod_bound(self.num as int, other.den as int);
            lemma_prod_bound(other.num as int, self.den as int);
            lemma_prod_bound(self.den as int, other.den as int);
        }
        let p1: i128 = a * d;
        let p2: i128 = c * b;
        let dd: i128 = b * d;
        if p1 > 0 && p2 > i128::MAX - p1 {
            return self;
        }
        let n: i128 = p1 + p2;
        if (i64::MIN as i128) <= n && n <= (i64::MAX as i128) && (i64::MIN as i128) <= dd && dd
            <= (i64::MAX as i128) {
            Rat { num: n as i64, den: dd as i64 }
        } else {
            self
        }
    }

    fn minus(self, other: Self) -> (r: Self) {
        let a: i128 = self.num as i128;
        let b: i128 = self.den as i128;
        let c: i128 = other.num as i128;
        let d: i128 = other.den as i128;
        proof {
            lemma_prod_bound(self.num as int, other.den as int);
            lemma_prod_bound(other.num as int, self.den as int);
            lemma_prod_bound(self.den as int, other.den as int);
        }
        let p1: i128 = a * d;
        let p2: i128 = c * b;
        let dd: i128 = b * d;
        if p2 < 0 && p1 > i128::MAX + p2 {
            return self;
        }
        let n: i128 = p1 - p2;
        if (i64::MIN as i128) <= n && n <= (i64::MAX as i128) && (i64::MIN as i128) <= dd && dd
            <= (i64::MAX as i128) {
            Rat { num: n as i64, den: dd as i64 }
        } else {
            self
        }
    }

    fn divided_by(self, other: Self) -> (r: Self) {
        let a: i128 = self.num as i128;
        let b: i128 = self.den as i128;
        let c: i128 = other.num as i128;
        let d: i128 = other.den as i128;
        proof {
            lemma_prod_bound(self.num as int, other.den as int);
            lemma_prod_bound(self.den as int, other.num as int);
        }
        let n: i128 = a * d;
        let dd: i128 = b * c;
        if (i64::MIN as i128) <= n && n <= (i64::MAX as i128) && (i64::MIN as i128) <= dd && dd
            <= (i64::MAX as i128) {
            Rat { num: n as i64, den: dd as i64 }
        } else {
            self
        }
    }

    fn from_count(n: usize) -> (r: Self) {
        if (n as u64) <= (i64::MAX as u64) {
            Rat { num: n as i64, den: 1 }
        } else {
            Rat { num: i64::MAX, den: 1 }
        }
    }
}

} // verus!
