//! Exact rational numbers: the value representation behind the language's
//! `Float` type. A `Rat` holds a fraction of two machine integers with a
//! positive denominator; its mathematical value is the unbounded fraction
//! `RatV`. Arithmetic is exact: an operation whose exact result does not fit
//! the machine representation reports that instead of rounding.
use vstd::prelude::*;

verus! {

/// Mathematical value of a `Rat`: a fraction of unbounded integers.
pub ghost struct RatV {
    pub num: int,
    pub den: int,
}

/// A fraction is well formed when its denominator is positive.
pub open spec fn rat_wf(r: RatV) -> bool {
    r.den > 0
}

/// Equality of fractions by cross multiplication (exact, no rounding).
pub open spec fn rat_eq(a: RatV, b: RatV) -> bool {
    a.num * b.den == b.num * a.den
}

/// Strict order of fractions by cross multiplication (for well-formed fractions).
pub open spec fn rat_lt(a: RatV, b: RatV) -> bool {
    a.num * b.den < b.num * a.den
}

/// Non-strict order of fractions by cross multiplication.
pub open spec fn rat_le(a: RatV, b: RatV) -> bool {
    a.num * b.den <= b.num * a.den
}

pub open spec fn rat_add(a: RatV, b: RatV) -> RatV {
    RatV { num: a.num * b.den + b.num * a.den, den: a.den * b.den }
}

pub open spec fn rat_sub(a: RatV, b: RatV) -> RatV {
    RatV { num: a.num * b.den - b.num * a.den, den: a.den * b.den }
}

pub open spec fn rat_mul(a: RatV, b: RatV) -> RatV {
    RatV { num: a.num * b.num, den: a.den * b.den }
}

/// Exact quotient of two fractions; the sign moves to the numerator so the
/// denominator stays positive. Meaningful only when `b` is not zero.
pub open spec fn rat_div(a: RatV, b: RatV) -> RatV {
    if b.num >= 0 {
        RatV { num: a.num * b.den, den: a.den * b.num }
    } else {
        RatV { num: -(a.num * b.den), den: -(a.den * b.num) }
    }
}

pub open spec fn rat_of_int(n: int) -> RatV {
    RatV { num: n, den: 1 }
}

pub open spec fn in_i64(n: int) -> bool {
    i64::MIN <= n <= i64::MAX
}

/// Both components of the exact result fit the machine representation.
pub open spec fn rat_in_range(r: RatV) -> bool {
    in_i64(r.num) && in_i64(r.den)
}

/// The machine representation of a `Float` value of the language. The
/// denominator is positive by type invariant, so every `Rat` value anywhere
/// in the crate is a well-formed fraction.
#[derive(Clone, Copy, Debug, PartialEq, Eq, Structural)]
pub struct Rat {
    num: i64,
    den: i64,
}

impl View for Rat {
    type V = RatV;

    closed spec fn view(&self) -> RatV {
        RatV { num: self.num as int, den: self.den as int }
    }
}

proof fn lemma_i64_prod_bounds(x: int, y: int)
    requires
        in_i64(x),
        in_i64(y),
    ensures
        -(0x8000_0000_0000_0000 * 0x8000_0000_0000_0000) <= x * y,
        x * y <= 0x8000_0000_0000_0000 * 0x8000_0000_0000_0000,
{
    assert(-(0x8000_0000_0000_0000 * 0x8000_0000_0000_0000) <= x * y <= 0x8000_0000_0000_0000
        * 0x8000_0000_0000_0000) by (nonlinear_arith)
        requires
            -0x8000_0000_0000_0000 <= x <= 0x7fff_ffff_ffff_ffff,
            -0x8000_0000_0000_0000 <= y <= 0x7fff_ffff_ffff_ffff,
    ;
}

proof fn lemma_i64_prod_den(x: int, d: int)
    requires
        in_i64(x),
        0 < d <= i64::MAX,
    ensures
        -(0x8000_0000_0000_0000 * 0x7fff_ffff_ffff_ffff) <= x * d,
        x * d <= 0x8000_0000_0000_0000 * 0x7fff_ffff_ffff_ffff,
{
    assert(-(0x8000_0000_0000_0000 * 0x7fff_ffff_ffff_ffff) <= x * d <= 0x8000_0000_0000_0000
        * 0x7fff_ffff_ffff_ffff) by (nonlinear_arith)
        requires
            -0x8000_0000_0000_0000 <= x <= 0x7fff_ffff_ffff_ffff,
            0 < d <= 0x7fff_ffff_ffff_ffff,
    ;
}

proof fn lemma_pos_prod(x: int, y: int)
    requires
        0 < x,
        0 < y,
    ensures
        0 < x * y,
{
    assert(0 < x * y) by (nonlinear_arith)
        requires
            0 < x,
            0 < y,
    ;
}

proof fn lemma_neg_prod(x: int, y: int)
    requires
        0 < x,
        y < 0,
    ensures
        x * y < 0,
{
    assert(x * y < 0) by (nonlinear_arith)
        requires
            0 < x,
            y < 0,
    ;
}

/// The view of any `Rat` lies within machine range: its components are
/// machine integers.
pub broadcast proof fn lemma_rat_view_range(r: &Rat)
    ensures
        #![trigger r.view()]
        rat_in_range(r@),
{
}

/// Two `Rat`s are equal exactly when their views are.
pub proof fn lemma_rat_eq_view(a: &Rat, b: &Rat)
    ensures
        (*a == *b) == (a@ == b@),
{
}

impl Rat {
    /// Every `Rat` is a well-formed fraction.
    #[verifier::type_invariant]
    pub open spec fn wf(&self) -> bool {
        rat_wf(self@)
    }

    /// The numerator.
    pub fn num(&self) -> (n: i64)
        ensures
            n as int == self@.num,
    {
        self.num
    }

    /// The denominator (always positive).
    pub fn den(&self) -> (d: i64)
        ensures
            d as int == self@.den,
            d > 0,
    {
        proof {
            use_type_invariant(self);
        }
        self.den
    }

    /// The fraction `num / den`.
    pub fn new(num: i64, den: i64) -> (r: Rat)
        requires
            den > 0,
        ensures
            r@ == (RatV { num: num as int, den: den as int }),
    {
        Rat { num, den }
    }

    /// The integer `n` as a fraction.
    pub fn from_int(n: i64) -> (r: Rat)
        ensures
            r@ == rat_of_int(n as int),
    {
        Rat { num: n, den: 1 }
    }

    /// Whether the fraction's value is zero.
    pub fn is_zero(&self) -> (b: bool)
        ensures
            b == (self@.num == 0),
    {
        self.num == 0
    }

    /// Exact sum; `None` exactly when the exact result does not fit.
    pub fn add(&self, other: &Rat) -> (r: Option<Rat>)
        ensures
            match r {
                Some(c) => c@ == rat_add(self@, other@),
                None => !rat_in_range(rat_add(self@, other@)),
            },
    {
        proof {
            use_type_invariant(self);
            use_type_invariant(other);
            lemma_i64_prod_den(self.num as int, other.den as int);
            lemma_i64_prod_den(other.num as int, self.den as int);
            lemma_pos_prod(self.den as int, other.den as int);
            lemma_i64_prod_den(self.den as int, other.den as int);
        }
        let n: i128 = (self.num as i128) * (other.den as i128) + (other.num as i128) * (self.den
            as i128);
        let d: i128 = (self.den as i128) * (other.den as i128);
        Self::narrow(n, d)
    }

    /// Exact difference; `None` exactly when the exact result does not fit.
    pub fn sub(&self, other: &Rat) -> (r: Option<Rat>)
        ensures
            match r {
                Some(c) => c@ == rat_sub(self@, other@),
                None => !rat_in_range(rat_sub(self@, other@)),
            },
    {
        proof {
            use_type_invariant(self);
            use_type_invariant(other);
            lemma_i64_prod_den(self.num as int, other.den as int);
            lemma_i64_prod_den(other.num as int, self.den as int);
            lemma_pos_prod(self.den as int, other.den as int);
            lemma_i64_prod_den(self.den as int, other.den as int);
        }
        let n: i128 = (self.num as i128) * (other.den as i128) - (other.num as i128) * (self.den
            as i128);
        let d: i128 = (self.den as i128) * (other.den as i128);
        Self::narrow(n, d)
    }

    /// Exact product; `None` exactly when the exact result does not fit.
    pub fn mul(&self, other: &Rat) -> (r: Option<Rat>)
        ensures
            match r {
                Some(c) => c@ == rat_mul(self@, other@),
                None => !rat_in_range(rat_mul(self@, other@)),
            },
    {
        proof {
            use_type_invariant(self);
            use_type_invariant(other);
            lemma_i64_prod_bounds(self.num as int, other.num as int);
            lemma_pos_prod(self.den as int, other.den as int);
            lemma_i64_prod_den(self.den as int, other.den as int);
        }
        let n: i128 = (self.num as i128) * (other.num as i128);
        let d: i128 = (self.den as i128) * (other.den as i128);
        Self::narrow(n, d)
    }

    /// Exact quotient; `None` exactly when the exact result does not fit.
    /// The divisor must not be zero.
    pub fn div(&self, other: &Rat) -> (r: Option<Rat>)
        requires
            other@.num != 0,
        ensures
            match r {
                Some(c) => c@ == rat_div(self@, other@),
                None => !rat_in_range(rat_div(self@, other@)),
            },
    {
        proof {
            use_type_invariant(self);
            use_type_invariant(other);
            lemma_i64_prod_den(self.num as int, other.den as int);
            lemma_i64_prod_bounds(self.den as int, other.num as int);
            if other@.num > 0 {
                lemma_pos_prod(self.den as int, other.num as int);
            } else {
                lemma_neg_prod(self.den as int, other.num as int);
            }
        }
        let n: i128 = (self.num as i128) * (other.den as i128);
        let d: i128 = (self.den as i128) * (other.num as i128);
        if other.num >= 0 {
            Self::narrow(n, d)
        } else {
            Self::narrow(-n, -d)
        }
    }

    /// Narrows an exact wide result back to machine width.
    fn narrow(n: i128, d: i128) -> (r: Option<Rat>)
        requires
            d > 0,
        ensures
            match r {
                Some(c) => c@ == (RatV { num: n as int, den: d as int }),
                None => !rat_in_range(RatV { num: n as int, den: d as int }),
            },
    {
        if n >= i64::MIN as i128 && n <= i64::MAX as i128 && d <= i64::MAX as i128 {
            Some(Rat { num: n as i64, den: d as i64 })
        } else {
            None
        }
    }

    /// Whether the two fractions have the same value (not the same representation).
    pub fn eq_val(&self, other: &Rat) -> (b: bool)
        ensures
            b == rat_eq(self@, other@),
    {
        proof {
            use_type_invariant(self);
            use_type_invariant(other);
            lemma_i64_prod_bounds(self.num as int, other.den as int);
            lemma_i64_prod_bounds(other.num as int, self.den as int);
        }
        (self.num as i128) * (other.den as i128) == (other.num as i128) * (self.den as i128)
    }

    /// Whether this fraction's value is strictly below the other's.
    pub fn lt(&self, other: &Rat) -> (b: bool)
        ensures
            b == rat_lt(self@, other@),
    {
        proof {
            use_type_invariant(self);
            use_type_invariant(other);
            lemma_i64_prod_bounds(self.num as int, other.den as int);
            lemma_i64_prod_bounds(other.num as int, self.den as int);
        }
        (self.num as i128) * (other.den as i128) < (other.num as i128) * (self.den as i128)
    }

    /// Whether this fraction's value is at most the other's.
    pub fn le(&self, other: &Rat) -> (b: bool)
        ensures
            b == rat_le(self@, other@),
    {
        proof {
            use_type_invariant(self);
            use_type_invariant(other);
            lemma_i64_prod_bounds(self.num as int, other.den as int);
            lemma_i64_prod_bounds(other.num as int, self.den as int);
        }
        (self.num as i128) * (other.den as i128) <= (other.num as i128) * (self.den as i128)
    }
}

} // verus!
