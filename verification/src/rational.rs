//! Exact rational arithmetic.
//!
//! Every physical quantity in the simulation is a rational number. The
//! mathematical model is `Ratio`, a ghost pair of unbounded integers with a
//! positive denominator; equality, ordering and the arithmetic operations on
//! it are defined by the usual cross-multiplication formulas. The executable
//! type `Rat` carries an `i64` numerator and denominator, reduces results by
//! their greatest common divisor, and reports `None` when a result cannot be
//! represented within its bounds.

use vstd::prelude::*;

verus! {

/// Mathematical value of a rational: numerator over denominator.
pub ghost struct Ratio {
    pub n: int,
    pub d: int,
}

/// A well-formed ratio keeps its denominator positive.
pub open spec fn rv_wf(a: Ratio) -> bool {
    a.d > 0
}

/// Value equality: a.n / a.d == b.n / b.d, by cross-multiplication.
pub open spec fn rat_eq(a: Ratio, b: Ratio) -> bool {
    a.n * b.d == b.n * a.d
}

/// Value ordering: a.n / a.d <= b.n / b.d, by cross-multiplication.
/// Meaningful only for well-formed ratios.
pub open spec fn rat_le(a: Ratio, b: Ratio) -> bool {
    a.n * b.d <= b.n * a.d
}

/// Strict value ordering, by cross-multiplication.
pub open spec fn rat_lt(a: Ratio, b: Ratio) -> bool {
    a.n * b.d < b.n * a.d
}

/// The rational with value `i`.
pub open spec fn int_v(i: int) -> Ratio {
    Ratio { n: i, d: 1 }
}

pub open spec fn add_v(a: Ratio, b: Ratio) -> Ratio {
    Ratio { n: a.n * b.d + b.n * a.d, d: a.d * b.d }
}

pub open spec fn sub_v(a: Ratio, b: Ratio) -> Ratio {
    Ratio { n: a.n * b.d - b.n * a.d, d: a.d * b.d }
}

pub open spec fn mul_v(a: Ratio, b: Ratio) -> Ratio {
    Ratio { n: a.n * b.n, d: a.d * b.d }
}

pub open spec fn neg_v(a: Ratio) -> Ratio {
    Ratio { n: -a.n, d: a.d }
}

pub open spec fn abs_v(a: Ratio) -> Ratio {
    if a.n >= 0 {
        a
    } else {
        neg_v(a)
    }
}

/// Reciprocal, with the sign moved into the numerator so that the
/// denominator stays positive. Meaningful only when `a.n != 0`.
pub open spec fn inv_v(a: Ratio) -> Ratio {
    if a.n >= 0 {
        Ratio { n: a.d, d: a.n }
    } else {
        Ratio { n: -a.d, d: -a.n }
    }
}

pub open spec fn div_v(a: Ratio, b: Ratio) -> Ratio {
    mul_v(a, inv_v(b))
}

/// Sign of the value: -1, 0 or 1. Meaningful only for well-formed ratios.
pub open spec fn sign_v(a: Ratio) -> int {
    if a.n > 0 {
        1
    } else if a.n < 0 {
        -1
    } else {
        0
    }
}

pub open spec fn is_zero_v(a: Ratio) -> bool {
    a.n == 0
}

// ---------------------------------------------------------------------------
// Laws of the ghost arithmetic: well-formedness, equivalence, congruence.
// ---------------------------------------------------------------------------

pub proof fn lemma_wf_add(a: Ratio, b: Ratio)
    requires
        rv_wf(a),
        rv_wf(b),
    ensures
        rv_wf(add_v(a, b)),
        rv_wf(sub_v(a, b)),
        rv_wf(mul_v(a, b)),
{
    assert(a.d * b.d > 0) by (nonlinear_arith)
        requires
            a.d > 0,
            b.d > 0,
    ;
}

pub proof fn lemma_wf_inv(a: Ratio)
    requires
        rv_wf(a),
        !is_zero_v(a),
    ensures
        rv_wf(inv_v(a)),
{
}

pub proof fn lemma_wf_div(a: Ratio, b: Ratio)
    requires
        rv_wf(a),
        rv_wf(b),
        !is_zero_v(b),
    ensures
        rv_wf(div_v(a, b)),
{
    lemma_wf_inv(b);
    lemma_wf_add(a, inv_v(b));
}

pub proof fn lemma_eq_refl(a: Ratio)
    ensures
        rat_eq(a, a),
{
}

pub proof fn lemma_eq_sym(a: Ratio, b: Ratio)
    requires
        rat_eq(a, b),
    ensures
        rat_eq(b, a),
{
}

pub proof fn lemma_eq_trans(a: Ratio, b: Ratio, c: Ratio)
    requires
        rv_wf(b),
        rat_eq(a, b),
        rat_eq(b, c),
    ensures
        rat_eq(a, c),
{
    assert(a.n * c.d == c.n * a.d) by (nonlinear_arith)
        requires
            b.d > 0,
            a.n * b.d == b.n * a.d,
            b.n * c.d == c.n * b.d,
    ;
}

proof fn nl_scale(x: int, y: int, z: int)
    by (nonlinear_arith)
    requires
        x == y,
    ensures
        x * z == y * z,
{
}

proof fn nl_add_left(an: int, ad: int, a2n: int, a2d: int, bn: int, bd: int)
    requires
        (an * a2d) * (bd * bd) == (a2n * ad) * (bd * bd),
    ensures
        (an * bd + bn * ad) * (a2d * bd) == (a2n * bd + bn * a2d) * (ad * bd),
{
    assert((an * bd) * (a2d * bd) == (an * a2d) * (bd * bd)) by (nonlinear_arith);
    assert((a2n * bd) * (ad * bd) == (a2n * ad) * (bd * bd)) by (nonlinear_arith);
    assert((bn * ad) * (a2d * bd) == (bn * a2d) * (ad * bd)) by (nonlinear_arith);
    assert((an * bd + bn * ad) * (a2d * bd) == (a2n * bd + bn * a2d) * (ad * bd))
        by (nonlinear_arith)
        requires
            (an * bd) * (a2d * bd) == (an * a2d) * (bd * bd),
            (a2n * bd) * (ad * bd) == (a2n * ad) * (bd * bd),
            (bn * ad) * (a2d * bd) == (bn * a2d) * (ad * bd),
            (an * a2d) * (bd * bd) == (a2n * ad) * (bd * bd),
    ;
}

/// Addition of ratios is commutative already as a pair of integers.
pub proof fn lemma_add_comm(a: Ratio, b: Ratio)
    ensures
        add_v(a, b) == add_v(b, a),
{
    assert(a.d * b.d == b.d * a.d) by (nonlinear_arith);
}

/// Subtraction is addition of the negation, already as a pair of integers.
pub proof fn lemma_sub_as_add_neg(a: Ratio, b: Ratio)
    ensures
        sub_v(a, b) == add_v(a, neg_v(b)),
{
    assert((-b.n) * a.d == -(b.n * a.d)) by (nonlinear_arith);
}

pub proof fn lemma_add_congr(a: Ratio, a2: Ratio, b: Ratio, b2: Ratio)
    requires
        rv_wf(a),
        rv_wf(a2),
        rv_wf(b),
        rv_wf(b2),
        rat_eq(a, a2),
        rat_eq(b, b2),
    ensures
        rat_eq(add_v(a, b), add_v(a2, b2)),
{
    nl_scale(a.n * a2.d, a2.n * a.d, b.d * b.d);
    nl_add_left(a.n, a.d, a2.n, a2.d, b.n, b.d);
    nl_scale(b.n * b2.d, b2.n * b.d, a2.d * a2.d);
    nl_add_left(b.n, b.d, b2.n, b2.d, a2.n, a2.d);
    lemma_add_comm(a2, b);
    lemma_add_comm(a2, b2);
    lemma_wf_add(a, b);
    lemma_wf_add(a2, b);
    lemma_wf_add(b2, a2);
    lemma_eq_trans(add_v(a, b), add_v(a2, b), add_v(b2, a2));
}

pub proof fn lemma_sub_congr(a: Ratio, a2: Ratio, b: Ratio, b2: Ratio)
    requires
        rv_wf(a),
        rv_wf(a2),
        rv_wf(b),
        rv_wf(b2),
        rat_eq(a, a2),
        rat_eq(b, b2),
    ensures
        rat_eq(sub_v(a, b), sub_v(a2, b2)),
{
    lemma_sub_as_add_neg(a, b);
    lemma_sub_as_add_neg(a2, b2);
    lemma_neg_congr(b, b2);
    lemma_add_congr(a, a2, neg_v(b), neg_v(b2));
}

pub proof fn lemma_mul_congr(a: Ratio, a2: Ratio, b: Ratio, b2: Ratio)
    requires
        rv_wf(a),
        rv_wf(a2),
        rv_wf(b),
        rv_wf(b2),
        rat_eq(a, a2),
        rat_eq(b, b2),
    ensures
        rat_eq(mul_v(a, b), mul_v(a2, b2)),
{
    assert((a.n * b.n) * (a2.d * b2.d) == (a2.n * b2.n) * (a.d * b.d)) by (nonlinear_arith)
        requires
            a.n * a2.d == a2.n * a.d,
            b.n * b2.d == b2.n * b.d,
    ;
}

pub proof fn lemma_neg_congr(a: Ratio, a2: Ratio)
    requires
        rv_wf(a),
        rv_wf(a2),
        rat_eq(a, a2),
    ensures
        rat_eq(neg_v(a), neg_v(a2)),
{
    assert((-a.n) * a2.d == (-a2.n) * a.d) by (nonlinear_arith)
        requires
            a.n * a2.d == a2.n * a.d,
    ;
}

pub proof fn lemma_sign_congr(a: Ratio, a2: Ratio)
    requires
        rv_wf(a),
        rv_wf(a2),
        rat_eq(a, a2),
    ensures
        sign_v(a) == sign_v(a2),
{
    assert(sign_v(a) == sign_v(a2)) by (nonlinear_arith)
        requires
            a.d > 0,
            a2.d > 0,
            a.n * a2.d == a2.n * a.d,
    ;
}

pub proof fn lemma_abs_congr(a: Ratio, a2: Ratio)
    requires
        rv_wf(a),
        rv_wf(a2),
        rat_eq(a, a2),
    ensures
        rat_eq(abs_v(a), abs_v(a2)),
{
    lemma_sign_congr(a, a2);
    if a.n >= 0 {
        assert(a2.n >= 0);
    } else {
        lemma_neg_congr(a, a2);
    }
}

pub proof fn lemma_inv_congr(a: Ratio, a2: Ratio)
    requires
        rv_wf(a),
        rv_wf(a2),
        !is_zero_v(a),
        rat_eq(a, a2),
    ensures
        !is_zero_v(a2),
        rat_eq(inv_v(a), inv_v(a2)),
{
    lemma_sign_congr(a, a2);
    if a.n > 0 {
        assert(a.d * a2.n == a2.d * a.n) by (nonlinear_arith)
            requires
                a.n * a2.d == a2.n * a.d,
        ;
    } else {
        assert((-a.d) * (-a2.n) == (-a2.d) * (-a.n)) by (nonlinear_arith)
            requires
                a.n * a2.d == a2.n * a.d,
        ;
    }
}

pub proof fn lemma_div_congr(a: Ratio, a2: Ratio, b: Ratio, b2: Ratio)
    requires
        rv_wf(a),
        rv_wf(a2),
        rv_wf(b),
        rv_wf(b2),
        !is_zero_v(b),
        rat_eq(a, a2),
        rat_eq(b, b2),
    ensures
        rat_eq(div_v(a, b), div_v(a2, b2)),
{
    lemma_inv_congr(b, b2);
    lemma_wf_inv(b);
    lemma_wf_inv(b2);
    lemma_mul_congr(a, a2, inv_v(b), inv_v(b2));
}

pub proof fn lemma_le_congr(a: Ratio, a2: Ratio, b: Ratio, b2: Ratio)
    requires
        rv_wf(a),
        rv_wf(a2),
        rv_wf(b),
        rv_wf(b2),
        rat_eq(a, a2),
        rat_eq(b, b2),
    ensures
        rat_le(a, b) == rat_le(a2, b2),
        rat_lt(a, b) == rat_lt(a2, b2),
{
    assert((a.n * b.d <= b.n * a.d) == (a2.n * b2.d <= b2.n * a2.d)) by (nonlinear_arith)
        requires
            a.d > 0,
            a2.d > 0,
            b.d > 0,
            b2.d > 0,
            a.n * a2.d == a2.n * a.d,
            b.n * b2.d == b2.n * b.d,
    ;
    assert((a.n * b.d < b.n * a.d) == (a2.n * b2.d < b2.n * a2.d)) by (nonlinear_arith)
        requires
            a.d > 0,
            a2.d > 0,
            b.d > 0,
            b2.d > 0,
            a.n * a2.d == a2.n * a.d,
            b.n * b2.d == b2.n * b.d,
    ;
}

// ---------------------------------------------------------------------------
// Executable rationals.
// ---------------------------------------------------------------------------

/// Largest magnitude the executable numerator and denominator may take.
pub const COMPONENT_BOUND: i64 = 0x4000_0000_0000_0000;

/// A ratio whose components fit the executable representation.
pub open spec fn fits(a: Ratio) -> bool {
    &&& -(COMPONENT_BOUND as int) <= a.n <= COMPONENT_BOUND as int
    &&& 0 < a.d <= COMPONENT_BOUND as int
}

/// An exact rational number with bounded components.
///
/// Arithmetic results are reduced by their greatest common divisor; an
/// operation returns `None` when even the reduced result would leave the
/// component bounds. Every operation's value is exact: no rounding occurs
/// anywhere.
#[derive(Clone, Copy, Debug)]
pub struct Rat {
    n: i64,
    d: i64,
}

impl View for Rat {
    type V = Ratio;

    closed spec fn view(&self) -> Ratio {
        Ratio { n: self.n as int, d: self.d as int }
    }
}

impl Rat {
    /// Every constructed `Rat` has a positive denominator and bounded
    /// components; `use_type_invariant` recovers this fact for a value.
    #[verifier::type_invariant]
    pub open spec fn wf(self) -> bool {
        fits(self@)
    }

    /// The rational `i`, for `i` within the component bound.
    pub fn from_int(i: i64) -> (r: Rat)
        requires
            -COMPONENT_BOUND <= i <= COMPONENT_BOUND,
        ensures
            r@ == int_v(i as int),
    {
        Rat { n: i, d: 1 }
    }

    pub fn zero() -> (r: Rat)
        ensures
            r@ == int_v(0),
    {
        Rat { n: 0, d: 1 }
    }

    pub fn one() -> (r: Rat)
        ensures
            r@ == int_v(1),
    {
        Rat { n: 1, d: 1 }
    }

    /// The rational `n / d`. `None` when `d == 0` or the reduced form
    /// does not fit the component bounds.
    pub fn new(n: i64, d: i64) -> (r: Option<Rat>)
        ensures
            d == 0 ==> r is None,
            r matches Some(q) ==> rat_eq(q@, Ratio { n: n as int, d: d as int }),
            d != 0 && fits_signed(n as int, d as int) ==> r is Some,
            r is Some <==> new_full(n as int, d as int) is Some,
            r matches Some(q) ==> Some(q@) == new_full(n as int, d as int),
    {
        if d == 0 {
            return None;
        }
        let neg: bool = (n < 0) != (d < 0);
        let nm: u128 = abs_i64(n);
        let dm: u128 = abs_i64(d);
        let r = assemble(neg, nm, dm);
        proof {
            let t = Ratio { n: sm_val(neg, nm as int), d: dm as int };
            let orig = Ratio { n: n as int, d: d as int };
            if d as int > 0 {
                assert(t == orig);
            } else {
                assert(t.n * orig.d == orig.n * t.d) by (nonlinear_arith)
                    requires
                        t.n == -(n as int),
                        t.d == -(d as int),
                        orig.n == n as int,
                        orig.d == d as int,
                ;
            }
            if r is Some {
                lemma_eq_trans(r->Some_0@, t, orig);
            }
        }
        r
    }

    pub fn num(&self) -> (r: i64)
        ensures
            r as int == self@.n,
    {
        self.n
    }

    pub fn den(&self) -> (r: i64)
        ensures
            r as int == self@.d,
    {
        self.d
    }

    /// Exact value equality.
    pub fn eq_val(&self, other: &Rat) -> (r: bool)
        ensures
            r == rat_eq(self@, other@),
    {
        proof {
            use_type_invariant(self);
            use_type_invariant(other);
            lemma_cross_bound(self@.n, other@.d);
            lemma_cross_bound(other@.n, self@.d);
        }
        let lhs: i128 = (self.n as i128) * (other.d as i128);
        let rhs: i128 = (other.n as i128) * (self.d as i128);
        lhs == rhs
    }

    pub fn le(&self, other: &Rat) -> (r: bool)
        ensures
            r == rat_le(self@, other@),
    {
        proof {
            use_type_invariant(self);
            use_type_invariant(other);
            lemma_cross_bound(self@.n, other@.d);
            lemma_cross_bound(other@.n, self@.d);
        }
        let lhs: i128 = (self.n as i128) * (other.d as i128);
        let rhs: i128 = (other.n as i128) * (self.d as i128);
        lhs <= rhs
    }

    pub fn lt(&self, other: &Rat) -> (r: bool)
        ensures
            r == rat_lt(self@, other@),
    {
        proof {
            use_type_invariant(self);
            use_type_invariant(other);
            lemma_cross_bound(self@.n, other@.d);
            lemma_cross_bound(other@.n, self@.d);
        }
        let lhs: i128 = (self.n as i128) * (other.d as i128);
        let rhs: i128 = (other.n as i128) * (self.d as i128);
        lhs < rhs
    }

    pub fn is_zero(&self) -> (r: bool)
        ensures
            r == is_zero_v(self@),
    {
        self.n == 0
    }

    /// Sign of the value: -1, 0 or 1.
    pub fn signum(&self) -> (r: i64)
        ensures
            r as int == sign_v(self@),
    {
        proof {
            use_type_invariant(self);
        }
        if self.n > 0 {
            1
        } else if self.n < 0 {
            -1
        } else {
            0
        }
    }

    /// Exact negation; never fails thanks to the symmetric component bound.
    pub fn neg(&self) -> (r: Rat)
        ensures
            r@ == neg_v(self@),
    {
        proof {
            use_type_invariant(self);
        }
        Rat { n: -self.n, d: self.d }
    }

    /// Exact absolute value.
    pub fn abs(&self) -> (r: Rat)
        ensures
            r@ == abs_v(self@),
    {
        proof {
            use_type_invariant(self);
        }
        if self.n < 0 {
            Rat { n: -self.n, d: self.d }
        } else {
            *self
        }
    }

    /// Exact sum. `None` only when even the reduced result leaves the
    /// component bounds; a result whose raw cross-multiplied form fits is
    /// always `Some`.
    pub fn checked_add(&self, other: &Rat) -> (r: Option<Rat>)
        ensures
            r matches Some(q) ==> rat_eq(q@, add_v(self@, other@)),
            fits(add_v(self@, other@)) ==> r is Some,
            r is Some <==> add_full(self@, other@) is Some,
            r matches Some(q) ==> Some(q@) == add_full(self@, other@),
    {
        proof {
            use_type_invariant(self);
            use_type_invariant(other);
        }
        let (s1, m1) = split_i64(self.n);
        let (s2, m2) = split_i64(other.n);
        let c1: u128 = mul_bounded(m1, other.d as u128);
        let c2: u128 = mul_bounded(m2, self.d as u128);
        let (s, m) = sm_add(s1, c1, s2, c2);
        let den: u128 = mul_bounded(self.d as u128, other.d as u128);
        proof {
            lemma_sm_scale(s1, m1 as int, other@.d);
            lemma_sm_scale(s2, m2 as int, self@.d);
            assert(sm_val(s, m as int) == add_v(self@, other@).n);
            assert(den as int == add_v(self@, other@).d);
        }
        assemble(s, m, den)
    }

    /// Exact difference, under the same success condition as `checked_add`.
    pub fn checked_sub(&self, other: &Rat) -> (r: Option<Rat>)
        ensures
            r matches Some(q) ==> rat_eq(q@, sub_v(self@, other@)),
            fits(sub_v(self@, other@)) ==> r is Some,
            r is Some <==> sub_full(self@, other@) is Some,
            r matches Some(q) ==> Some(q@) == sub_full(self@, other@),
    {
        proof {
            use_type_invariant(other);
            lemma_sub_as_add_neg(self@, other@);
        }
        self.checked_add(&other.neg())
    }

    /// Exact product, under the same success condition.
    pub fn checked_mul(&self, other: &Rat) -> (r: Option<Rat>)
        ensures
            r matches Some(q) ==> rat_eq(q@, mul_v(self@, other@)),
            fits(mul_v(self@, other@)) ==> r is Some,
            r is Some <==> mul_full(self@, other@) is Some,
            r matches Some(q) ==> Some(q@) == mul_full(self@, other@),
    {
        proof {
            use_type_invariant(self);
            use_type_invariant(other);
        }
        let (s1, m1) = split_i64(self.n);
        let (s2, m2) = split_i64(other.n);
        let m: u128 = mul_bounded(m1, m2);
        let den: u128 = mul_bounded(self.d as u128, other.d as u128);
        let s: bool = s1 != s2;
        proof {
            lemma_sm_mul(s1, m1 as int, s2, m2 as int);
            assert(sm_val(s, m as int) == mul_v(self@, other@).n);
            assert(den as int == mul_v(self@, other@).d);
        }
        assemble(s, m, den)
    }

    /// Exact quotient. `None` when the divisor is zero, and otherwise only
    /// when even the reduced result leaves the component bounds.
    pub fn checked_div(&self, other: &Rat) -> (r: Option<Rat>)
        ensures
            is_zero_v(other@) ==> r is None,
            r matches Some(q) ==> rat_eq(q@, div_v(self@, other@)),
            !is_zero_v(other@) && fits(div_v(self@, other@)) ==> r is Some,
            r is Some <==> div_full(self@, other@) is Some,
            r matches Some(q) ==> Some(q@) == div_full(self@, other@),
    {
        proof {
            use_type_invariant(self);
            use_type_invariant(other);
        }
        if other.n == 0 {
            return None;
        }
        let (s1, m1) = split_i64(self.n);
        let (s2, m2) = split_i64(other.n);
        let m: u128 = mul_bounded(m1, other.d as u128);
        let den: u128 = mul_bounded(self.d as u128, m2);
        let s: bool = s1 != s2;
        proof {
            lemma_div_shape(self@, other@);
            lemma_sm_scale(s1, m1 as int, other@.d);
            if other@.n > 0 {
                assert(sm_val(s, m as int) == div_v(self@, other@).n);
            } else {
                assert(sm_val(s, m as int) == -sm_val(s1, m as int));
                assert(div_v(self@, other@).n == -(self@.n * other@.d)) by (nonlinear_arith)
                    requires
                        div_v(self@, other@).n == self@.n * (-other@.d),
                ;
            }
            assert(sm_val(s, m as int) == div_v(self@, other@).n);
            assert(den as int == div_v(self@, other@).d) by (nonlinear_arith)
                requires
                    den as int == self@.d * (m2 as int),
                    m2 as int == if other@.n >= 0 {
                        other@.n
                    } else {
                        -other@.n
                    },
                    div_v(self@, other@).d == if other@.n >= 0 {
                        self@.d * other@.n
                    } else {
                        self@.d * (-other@.n)
                    },
            ;
        }
        assemble(s, m, den)
    }
}

/// `n / d` in signed form fits the component bounds after sign
/// normalisation.
pub open spec fn fits_signed(n: int, d: int) -> bool {
    &&& -(COMPONENT_BOUND as int) <= n <= COMPONENT_BOUND as int
    &&& -(COMPONENT_BOUND as int) <= d <= COMPONENT_BOUND as int
}

/// Signed value carried by a sign flag and a magnitude.
spec fn sm_val(neg: bool, m: int) -> int {
    if neg {
        -m
    } else {
        m
    }
}

/// Splits a bounded `i64` into sign and magnitude.
fn split_i64(n: i64) -> (r: (bool, u128))
    requires
        -COMPONENT_BOUND <= n <= COMPONENT_BOUND,
    ensures
        sm_val(r.0, r.1 as int) == n as int,
        r.1 <= COMPONENT_BOUND as u128,
{
    if n < 0 {
        (true, (-n) as u128)
    } else {
        (false, n as u128)
    }
}

/// Magnitude of any `i64`, as `u128`.
fn abs_i64(n: i64) -> (r: u128)
    ensures
        r as int == if n as int >= 0 {
            n as int
        } else {
            -(n as int)
        },
{
    if n < 0 {
        if n == i64::MIN {
            0x8000_0000_0000_0000u128
        } else {
            (-n) as u128
        }
    } else {
        n as u128
    }
}

/// Product of two magnitudes below the component bound; cannot overflow.
fn mul_bounded(a: u128, b: u128) -> (r: u128)
    requires
        a <= 0x8000_0000_0000_0000u128,
        b <= 0x8000_0000_0000_0000u128,
    ensures
        r as int == a as int * b as int,
        r <= 0x4000_0000_0000_0000_0000_0000_0000_0000u128,
        a >= 1 && b >= 1 ==> r >= 1,
{
    proof {
        assert(a as int >= 1 && b as int >= 1 ==> a as int * b as int >= 1) by (nonlinear_arith);
        assert(a as int * b as int <= 0x8000_0000_0000_0000 * 0x8000_0000_0000_0000)
            by (nonlinear_arith)
            requires
                0 <= a as int <= 0x8000_0000_0000_0000,
                0 <= b as int <= 0x8000_0000_0000_0000,
        ;
        assert(a as int * b as int >= 0) by (nonlinear_arith)
            requires
                0 <= a as int,
                0 <= b as int,
        ;
    }
    a * b
}

/// Signed addition in sign-magnitude form; exact, no overflow below
/// half the `u128` range.
fn sm_add(s1: bool, m1: u128, s2: bool, m2: u128) -> (r: (bool, u128))
    requires
        m1 <= 0x4000_0000_0000_0000_0000_0000_0000_0000u128,
        m2 <= 0x4000_0000_0000_0000_0000_0000_0000_0000u128,
    ensures
        sm_val(r.0, r.1 as int) == sm_val(s1, m1 as int) + sm_val(s2, m2 as int),
        r.1 <= m1 + m2,
{
    if s1 == s2 {
        (s1, m1 + m2)
    } else if m1 >= m2 {
        (s1, m1 - m2)
    } else {
        (s2, m2 - m1)
    }
}


// ---------------------------------------------------------------------------
// Exact mirror of the executable arithmetic, so that each operation can
// say precisely when it succeeds and which representation it returns.
// ---------------------------------------------------------------------------

/// Euclid's algorithm as a specification.
pub open spec fn gcd_rec(a: nat, b: nat) -> nat
    decreases b,
{
    if b == 0 {
        a
    } else {
        gcd_rec(b, a % b)
    }
}

/// What reduction computes on a nonnegative fraction: divide both parts
/// by their greatest common divisor where that division is exact.
pub open spec fn reduce_frac(n: int, d: int) -> (int, int) {
    if n == 0 {
        (0, 1)
    } else {
        let g = gcd_rec(n as nat, d as nat) as int;
        let qn = n / g;
        let qd = d / g;
        if qn * g == n && qd * g == d {
            (qn, qd)
        } else {
            (n, d)
        }
    }
}

/// What assembling a raw signed fraction returns: the reduced components
/// when they fit the representation, and nothing otherwise.
pub open spec fn assemble_frac(rawn: int, rawd: int) -> Option<Ratio> {
    let m = if rawn >= 0 {
        rawn
    } else {
        -rawn
    };
    let p = reduce_frac(m, rawd);
    if p.0 <= COMPONENT_BOUND as int && p.1 <= COMPONENT_BOUND as int {
        Some(
            Ratio {
                n: if rawn < 0 {
                    -p.0
                } else {
                    p.0
                },
                d: p.1,
            },
        )
    } else {
        None
    }
}

/// Exactly the sum `checked_add` returns: its representation when the
/// reduced result fits, `None` otherwise.
pub open spec fn add_full(a: Ratio, b: Ratio) -> Option<Ratio> {
    assemble_frac(add_v(a, b).n, add_v(a, b).d)
}

/// Exactly the difference `checked_sub` returns.
pub open spec fn sub_full(a: Ratio, b: Ratio) -> Option<Ratio> {
    assemble_frac(sub_v(a, b).n, sub_v(a, b).d)
}

/// Exactly the product `checked_mul` returns.
pub open spec fn mul_full(a: Ratio, b: Ratio) -> Option<Ratio> {
    assemble_frac(mul_v(a, b).n, mul_v(a, b).d)
}

/// Exactly the quotient `checked_div` returns.
pub open spec fn div_full(a: Ratio, b: Ratio) -> Option<Ratio> {
    if b.n == 0 {
        None
    } else {
        assemble_frac(div_v(a, b).n, div_v(a, b).d)
    }
}

/// Exactly the rational `Rat::new` returns.
pub open spec fn new_full(n: int, d: int) -> Option<Ratio> {
    if d == 0 {
        None
    } else if d < 0 {
        assemble_frac(-n, -d)
    } else {
        assemble_frac(n, d)
    }
}

/// Greatest common divisor of `a` and `b` by Euclid's algorithm.
fn gcd_u128(a0: u128, b0: u128) -> (g: u128)
    requires
        b0 >= 1,
    ensures
        1 <= g,
        g as nat == gcd_rec(a0 as nat, b0 as nat),
{
    let mut a: u128 = a0;
    let mut b: u128 = b0;
    while b != 0
        invariant
            a > 0 || b > 0,
            gcd_rec(a as nat, b as nat) == gcd_rec(a0 as nat, b0 as nat),
        decreases b,
    {
        let t: u128 = a % b;
        a = b;
        b = t;
    }
    a
}

/// Reduces `n / d` by the greatest common divisor, keeping the value.
fn reduce_u128(n: u128, d: u128) -> (r: (u128, u128))
    requires
        d >= 1,
    ensures
        r.1 >= 1,
        r.0 <= n,
        r.1 <= d,
        r.0 as int * d as int == n as int * r.1 as int,
        (r.0 as int, r.1 as int) == reduce_frac(n as int, d as int),
{
    if n == 0 {
        return (0, 1);
    }
    let g = gcd_u128(n, d);
    let qn = n / g;
    let qd = d / g;
    proof {
        let gi = g as int;
        let ni = n as int;
        let di = d as int;
        let qni = ni / gi;
        let rni = ni % gi;
        let qdi = di / gi;
        let rdi = di % gi;
        vstd::arithmetic::div_mod::lemma_fundamental_div_mod(ni, gi);
        vstd::arithmetic::div_mod::lemma_mod_bound(ni, gi);
        vstd::arithmetic::div_mod::lemma_fundamental_div_mod(di, gi);
        vstd::arithmetic::div_mod::lemma_mod_bound(di, gi);
        assert(0 <= qni * gi <= ni) by (nonlinear_arith)
            requires
                ni == gi * qni + rni,
                0 <= rni,
                gi >= 1,
                ni >= 0,
                qni >= 0,
        ;
        assert(0 <= qdi * gi <= di) by (nonlinear_arith)
            requires
                di == gi * qdi + rdi,
                0 <= rdi,
                gi >= 1,
                di >= 0,
                qdi >= 0,
        ;
    }
    if qn * g == n && qd * g == d {
        proof {
            assert(qn as int * d as int == n as int * qd as int) by (nonlinear_arith)
                requires
                    qn as int * g as int == n as int,
                    qd as int * g as int == d as int,
            ;
            assert(qn <= n) by (nonlinear_arith)
                requires
                    qn as int * g as int == n as int,
                    g as int >= 1,
                    qn as int >= 0,
            ;
            assert(qd <= d) by (nonlinear_arith)
                requires
                    qd as int * g as int == d as int,
                    g as int >= 1,
                    qd as int >= 0,
            ;
            assert(qd >= 1) by (nonlinear_arith)
                requires
                    qd as int * g as int == d as int,
                    d as int >= 1,
                    qd as int >= 0,
            ;
        }
        (qn, qd)
    } else {
        (n, d)
    }
}

/// Builds a `Rat` out of sign-magnitude components, reducing first.
/// `None` exactly when even the reduced components leave the bounds.
fn assemble(s: bool, m: u128, den: u128) -> (r: Option<Rat>)
    requires
        den >= 1,
    ensures
        r matches Some(q) ==> rat_eq(
            q@,
            (Ratio { n: sm_val(s, m as int), d: den as int }),
        ),
        m <= COMPONENT_BOUND as u128 && den <= COMPONENT_BOUND as u128 ==> r is Some,
        r is Some <==> assemble_frac(sm_val(s, m as int), den as int) is Some,
        r matches Some(q) ==> Some(q@) == assemble_frac(sm_val(s, m as int), den as int),
{
    let ghost rawn = sm_val(s, m as int);
    let (rn, rd) = reduce_u128(m, den);
    proof {
        if s && m > 0 {
            assert(rawn < 0 && -rawn == m as int);
        } else {
            assert(rawn == m as int && rawn >= 0);
        }
    }
    if rn <= COMPONENT_BOUND as u128 && rd <= COMPONENT_BOUND as u128 {
        let n_mag: i64 = rn as i64;
        let q = Rat { n: if s { -n_mag } else { n_mag }, d: rd as i64 };
        proof {
            assert(q@.n * (den as int) == sm_val(s, m as int) * q@.d) by (nonlinear_arith)
                requires
                    rn as int * den as int == m as int * rd as int,
                    q@.n == sm_val(s, rn as int),
                    q@.d == rd as int,
            ;
            if s && m > 0 {
                if rn == 0 {
                    assert(reduce_frac(m as int, den as int).0 == 0);
                }
            }
            assert(Some(q@) == assemble_frac(rawn, den as int));
        }
        Some(q)
    } else {
        None
    }
}

/// Scaling a sign-magnitude value by a nonnegative factor scales its
/// signed meaning.
proof fn lemma_sm_scale(s: bool, m: int, k: int)
    requires
        m >= 0,
        k >= 0,
    ensures
        sm_val(s, m * k) == sm_val(s, m) * k,
{
    if s {
        assert(-(m * k) == (-m) * k) by (nonlinear_arith);
    }
}

/// The product of two sign-magnitude values multiplies magnitudes and
/// combines signs.
proof fn lemma_sm_mul(s1: bool, m1: int, s2: bool, m2: int)
    requires
        m1 >= 0,
        m2 >= 0,
    ensures
        sm_val(s1 != s2, m1 * m2) == sm_val(s1, m1) * sm_val(s2, m2),
{
    if s1 != s2 {
        assert(-(m1 * m2) == (-m1) * m2) by (nonlinear_arith);
        assert(-(m1 * m2) == m1 * (-m2)) by (nonlinear_arith);
    } else if s1 {
        assert(m1 * m2 == (-m1) * (-m2)) by (nonlinear_arith);
    }
}

/// Bound on the cross product of two bounded components.
proof fn lemma_cross_bound(x: int, y: int)
    by (nonlinear_arith)
    requires
        -0x4000_0000_0000_0000 <= x <= 0x4000_0000_0000_0000,
        0 <= y <= 0x4000_0000_0000_0000,
    ensures
        -0x1000_0000_0000_0000_0000_0000_0000_0000 <= x * y,
        x * y <= 0x1000_0000_0000_0000_0000_0000_0000_0000,
{
}

/// The quotient's raw components are the cross products with the sign
/// moved onto the numerator.
proof fn lemma_div_shape(a: Ratio, b: Ratio)
    requires
        rv_wf(a),
        rv_wf(b),
        !is_zero_v(b),
    ensures
        div_v(a, b).d > 0,
        b.n > 0 ==> div_v(a, b) == (Ratio { n: a.n * b.d, d: a.d * b.n }),
        b.n < 0 ==> div_v(a, b) == (Ratio { n: a.n * (-b.d), d: a.d * (-b.n) }),
{
    lemma_wf_div(a, b);
}

} // verus!
