//! The camera predictor.
//!
//! Each tick the chase camera looks toward a focus point ahead of the
//! tracked vessel. The look-ahead distance ramps smoothly with speed
//! through a logistic interpolation, and when the vessel is turning the
//! straight-ahead focus point is blended toward one swept along the
//! predicted turn circle.
//!
//! Two model choices stand in for transcendental functions, both exact
//! rational arithmetic with fully pinned-down contracts: the exponential
//! inside the logistic is the rational surrogate `exp_approx_v` (linear
//! above zero, reciprocal-linear below — positive, strictly monotone, one
//! at zero), and vector magnitudes come from `sqrt_floor`, the square root
//! rounded down to a fixed grid of one millionth, characterised exactly by
//! its two-sided bound.

use vstd::prelude::*;

use crate::movements::{
    calculate_turn_circle_center, turn_circle_center_v, turn_radius_v, Pose, Posev,
    VelocityVector, Velv,
};
use crate::rational::{
    abs_v, add_v, div_v, fits, int_v, inv_v, is_zero_v, mul_v, neg_v, rat_eq, rat_le, rat_lt,
    rv_wf, sign_v, sub_v, Rat, Ratio,
};
use crate::rotation::{angle_rot_v, rot_apply_v, rot_unit, rot_wf, Rot, Rotv};
use crate::vec3::{v3_add, v3_dot, v3_eq, v3_scale, v3_sub, v3_wf, Vec3r, Vec3v};

verus! {

// ---------------------------------------------------------------------------
// Logistic interpolation.
// ---------------------------------------------------------------------------

/// Rational surrogate for the exponential: `1 + y` for `y >= 0`, and
/// `1 / (1 - y)` for `y < 0`. Positive everywhere, strictly increasing,
/// and exactly `1` at zero — the three facts the logistic needs.
pub open spec fn exp_approx_v(y: Ratio) -> Ratio {
    if y.n >= 0 {
        add_v(int_v(1), y)
    } else {
        inv_v(sub_v(int_v(1), y))
    }
}

/// The surrogate is well formed and strictly positive.
pub proof fn lemma_exp_pos(y: Ratio)
    requires
        rv_wf(y),
    ensures
        rv_wf(exp_approx_v(y)),
        sign_v(exp_approx_v(y)) == 1,
{
    if y.n >= 0 {
        crate::rational::lemma_wf_add(int_v(1), y);
        assert(add_v(int_v(1), y).n == 1 * y.d + y.n * 1);
    } else {
        let s = sub_v(int_v(1), y);
        assert(s.n == 1 * y.d - y.n * 1);
        assert(s.n > 0);
    }
}

/// The surrogate respects value equality.
pub proof fn lemma_exp_congr(y: Ratio, y2: Ratio)
    requires
        rv_wf(y),
        rv_wf(y2),
        rat_eq(y, y2),
    ensures
        rat_eq(exp_approx_v(y), exp_approx_v(y2)),
{
    crate::rational::lemma_sign_congr(y, y2);
    if y.n >= 0 {
        crate::rational::lemma_add_congr(int_v(1), int_v(1), y, y2);
    } else {
        crate::rational::lemma_sub_congr(int_v(1), int_v(1), y, y2);
        let s = sub_v(int_v(1), y);
        let s2 = sub_v(int_v(1), y2);
        assert(s.n == 1 * y.d - y.n * 1);
        assert(s.n > 0);
        crate::rational::lemma_wf_add(int_v(1), y);
        crate::rational::lemma_wf_add(int_v(1), y2);
        crate::rational::lemma_inv_congr(s, s2);
    }
}

/// Exactly the value `exp_approx` returns.
pub open spec fn exp_full(y: Ratio) -> Option<Ratio> {
    if y.n >= 0 {
        crate::rational::add_full(int_v(1), y)
    } else {
        match crate::rational::sub_full(int_v(1), y) {
            None => None,
            Some(s) => if is_zero_v(s) {
                None
            } else {
                crate::rational::div_full(int_v(1), s)
            },
        }
    }
}

/// Executable exponential surrogate. `None` only when the exact
/// arithmetic leaves the representable range.
pub fn exp_approx(y: &Rat) -> (r: Option<Rat>)
    ensures
        r matches Some(q) ==> rat_eq(q@, exp_approx_v(y@)),
        r is Some <==> exp_full(y@) is Some,
        r matches Some(q) ==> Some(q@) == exp_full(y@),
{
    proof {
        use_type_invariant(y);
    }
    let one = Rat::one();
    if y.signum() >= 0 {
        one.checked_add(y)
    } else {
        let s = match one.checked_sub(y) {
            Some(v) => v,
            None => {
                return None;
            },
        };
        if s.is_zero() {
            return None;
        }
        let e = match one.checked_div(&s) {
            Some(v) => v,
            None => {
                return None;
            },
        };
        proof {
            use_type_invariant(&s);
            use_type_invariant(&e);
            let sv = sub_v(int_v(1), y@);
            assert(sv.n == 1 * y@.d - y@.n * 1);
            assert(sv.n > 0);
            crate::rational::lemma_wf_add(int_v(1), y@);
            crate::rational::lemma_div_congr(int_v(1), int_v(1), s@, sv);
            crate::rational::lemma_wf_div(int_v(1), s@);
            crate::rational::lemma_eq_trans(e@, div_v(int_v(1), s@), div_v(int_v(1), sv));
            crate::rational::lemma_wf_inv(sv);
            assert(rat_eq(div_v(int_v(1), sv), inv_v(sv))) by (nonlinear_arith)
                requires
                    div_v(int_v(1), sv).n == 1 * inv_v(sv).n,
                    div_v(int_v(1), sv).d == 1 * inv_v(sv).d,
            ;
            crate::rational::lemma_wf_div(int_v(1), sv);
            crate::rational::lemma_eq_trans(e@, div_v(int_v(1), sv), exp_approx_v(y@));
        }
        Some(e)
    }
}

/// Logistic interpolation over the rational model:
/// `supremum / (1 + exp_approx(-steepness * (x - midpoint)))`.
pub open spec fn logistic_v(x: Ratio, supremum: Ratio, steepness: Ratio, midpoint: Ratio) -> Ratio {
    div_v(supremum, add_v(int_v(1), exp_approx_v(neg_v(mul_v(steepness, sub_v(x, midpoint))))))
}

/// The logistic's denominator is strictly positive (greater than one), so
/// the division is always defined.
pub proof fn lemma_logistic_den_pos(x: Ratio, steepness: Ratio, midpoint: Ratio)
    requires
        rv_wf(x),
        rv_wf(steepness),
        rv_wf(midpoint),
    ensures
        rv_wf(add_v(int_v(1), exp_approx_v(neg_v(mul_v(steepness, sub_v(x, midpoint)))))),
        sign_v(add_v(int_v(1), exp_approx_v(neg_v(mul_v(steepness, sub_v(x, midpoint)))))) == 1,
{
    let y = neg_v(mul_v(steepness, sub_v(x, midpoint)));
    crate::rational::lemma_wf_add(x, midpoint);
    crate::rational::lemma_wf_add(steepness, sub_v(x, midpoint));
    lemma_exp_pos(y);
    let e = exp_approx_v(y);
    crate::rational::lemma_wf_add(int_v(1), e);
    assert(add_v(int_v(1), e).n == 1 * e.d + e.n * 1);
}

/// Midpoint law: at `x == midpoint` the logistic is exactly half the
/// supremum.
pub proof fn lemma_logistic_midpoint(supremum: Ratio, steepness: Ratio, midpoint: Ratio)
    requires
        rv_wf(supremum),
        rv_wf(steepness),
        rv_wf(midpoint),
    ensures
        rat_eq(
            logistic_v(midpoint, supremum, steepness, midpoint),
            div_v(supremum, int_v(2)),
        ),
{
    let z = sub_v(midpoint, midpoint);
    assert(z.n == midpoint.n * midpoint.d - midpoint.n * midpoint.d);
    let p = mul_v(steepness, z);
    assert(p.n == steepness.n * 0) by (nonlinear_arith)
        requires
            p.n == steepness.n * z.n,
            z.n == 0,
    ;
    let y = neg_v(p);
    assert(y.n == 0);
    crate::rational::lemma_wf_add(midpoint, midpoint);
    crate::rational::lemma_wf_add(steepness, z);
    let e = exp_approx_v(y);
    assert(e == add_v(int_v(1), y));
    assert(e.n == 1 * y.d + 0 * 1) by (nonlinear_arith)
        requires
            e.n == 1 * y.d + y.n * 1,
            y.n == 0,
    ;
    assert(e.n == y.d);
    assert(e.d == 1 * y.d);
    let den = add_v(int_v(1), e);
    assert(den.n == 1 * e.d + e.n * 1);
    assert(den.n == e.d + e.n);
    assert(den.d == 1 * e.d);
    let l = logistic_v(midpoint, supremum, steepness, midpoint);
    lemma_logistic_den_pos(midpoint, steepness, midpoint);
    assert(l == div_v(supremum, den));
    assert(l.n * (supremum.d * 2) == (supremum.n * 1) * l.d) by (nonlinear_arith)
        requires
            l.n == supremum.n * den.d,
            l.d == supremum.d * den.n,
            den.n == e.d + e.n,
            den.d == 1 * e.d,
            e.n == y.d,
            e.d == 1 * y.d,
    ;
}

/// Bounds law: for a positive supremum the logistic lies strictly between
/// zero and the supremum, for every input.
pub proof fn lemma_logistic_bounds(x: Ratio, supremum: Ratio, steepness: Ratio, midpoint: Ratio)
    requires
        rv_wf(x),
        rv_wf(supremum),
        rv_wf(steepness),
        rv_wf(midpoint),
        sign_v(supremum) == 1,
    ensures
        rat_lt(int_v(0), logistic_v(x, supremum, steepness, midpoint)),
        rat_lt(logistic_v(x, supremum, steepness, midpoint), supremum),
{
    let y = neg_v(mul_v(steepness, sub_v(x, midpoint)));
    let e = exp_approx_v(y);
    let den = add_v(int_v(1), e);
    crate::rational::lemma_wf_add(x, midpoint);
    crate::rational::lemma_wf_add(steepness, sub_v(x, midpoint));
    lemma_exp_pos(y);
    lemma_logistic_den_pos(x, steepness, midpoint);
    let l = logistic_v(x, supremum, steepness, midpoint);
    assert(l.n == supremum.n * den.d && l.d == supremum.d * den.n);
    assert(0 * l.d < l.n * 1) by (nonlinear_arith)
        requires
            l.n == supremum.n * den.d,
            supremum.n > 0,
            den.d > 0,
    ;
    assert(den.n * den.d > den.d * den.d) by (nonlinear_arith)
        requires
            den.n == 1 * e.d + e.n * 1,
            den.d == 1 * e.d,
            e.n > 0,
            e.d > 0,
    ;
    assert(l.n * supremum.d < supremum.n * l.d) by (nonlinear_arith)
        requires
            l.n == supremum.n * den.d,
            l.d == supremum.d * den.n,
            den.n * den.d > den.d * den.d,
            supremum.n > 0,
            supremum.d > 0,
            den.n > 0,
            den.d > 0,
    ;
}

/// Exactly the value `logistic_interpolation` returns.
pub open spec fn logistic_full(x: Ratio, sup: Ratio, k: Ratio, mid: Ratio) -> Option<Ratio> {
    match crate::rational::sub_full(x, mid) {
        None => None,
        Some(xm) => match crate::rational::mul_full(k, xm) {
            None => None,
            Some(p) => match exp_full(neg_v(p)) {
                None => None,
                Some(e) => match crate::rational::add_full(int_v(1), e) {
                    None => None,
                    Some(den) => if is_zero_v(den) {
                        None
                    } else {
                        crate::rational::div_full(sup, den)
                    },
                },
            },
        },
    }
}

/// Executable logistic interpolation; exact over the rational model.
/// `None` only when the exact arithmetic leaves the representable range.
pub fn logistic_interpolation(x: &Rat, supremum: &Rat, steepness: &Rat, midpoint: &Rat) -> (r:
    Option<Rat>)
    ensures
        r matches Some(q) ==> rat_eq(q@, logistic_v(x@, supremum@, steepness@, midpoint@)),
        r is Some <==> logistic_full(x@, supremum@, steepness@, midpoint@) is Some,
        r matches Some(q) ==> Some(q@) == logistic_full(x@, supremum@, steepness@, midpoint@),
{
    proof {
        use_type_invariant(x);
        use_type_invariant(supremum);
        use_type_invariant(steepness);
        use_type_invariant(midpoint);
    }
    let xm = match x.checked_sub(midpoint) {
        Some(v) => v,
        None => {
            return None;
        },
    };
    let p = match steepness.checked_mul(&xm) {
        Some(v) => v,
        None => {
            return None;
        },
    };
    let y = p.neg();
    let one = Rat::one();
    let e = match exp_approx(&y) {
        Some(v) => v,
        None => {
            return None;
        },
    };
    let den = match one.checked_add(&e) {
        Some(v) => v,
        None => {
            return None;
        },
    };
    if den.is_zero() {
        return None;
    }
    let r = match supremum.checked_div(&den) {
        Some(v) => v,
        None => {
            return None;
        },
    };
    proof {
        use_type_invariant(&xm);
        use_type_invariant(&p);
        use_type_invariant(&y);
        use_type_invariant(&e);
        use_type_invariant(&den);
        use_type_invariant(&r);
        let xmv = sub_v(x@, midpoint@);
        let pv = mul_v(steepness@, xmv);
        let yv = neg_v(pv);
        let ev = exp_approx_v(yv);
        let denv = add_v(int_v(1), ev);
        crate::rational::lemma_wf_add(x@, midpoint@);
        crate::rational::lemma_wf_add(steepness@, xmv);
        lemma_exp_pos(yv);
        lemma_logistic_den_pos(x@, steepness@, midpoint@);
        crate::rational::lemma_mul_congr(steepness@, steepness@, xm@, xmv);
        crate::rational::lemma_wf_add(steepness@, xm@);
        crate::rational::lemma_eq_trans(p@, mul_v(steepness@, xm@), pv);
        crate::rational::lemma_neg_congr(p@, pv);
        lemma_exp_congr(y@, yv);
        lemma_exp_pos(y@);
        crate::rational::lemma_eq_trans(e@, exp_approx_v(y@), ev);
        crate::rational::lemma_add_congr(int_v(1), int_v(1), e@, ev);
        crate::rational::lemma_wf_add(int_v(1), e@);
        crate::rational::lemma_eq_trans(den@, add_v(int_v(1), e@), denv);
        crate::rational::lemma_sign_congr(den@, denv);
        crate::rational::lemma_div_congr(supremum@, supremum@, den@, denv);
        crate::rational::lemma_wf_div(supremum@, den@);
        crate::rational::lemma_eq_trans(r@, div_v(supremum@, den@), logistic_v(x@, supremum@, steepness@, midpoint@));
    }
    Some(r)
}

// ---------------------------------------------------------------------------
// Square roots on a fixed grid.
// ---------------------------------------------------------------------------

/// Grid of the square-root approximation: one millionth.
pub open spec fn grid_v() -> Ratio {
    Ratio { n: 1, d: 1000000 }
}

/// `m` is the square root of `x` rounded down to the grid: nonnegative,
/// its square at most `x`, and one grid step more already squares past
/// `x`. These bounds pin `m`'s value uniquely.
pub open spec fn sqrt_floor_p(x: Ratio, m: Ratio) -> bool {
    &&& rv_wf(m)
    &&& rat_le(int_v(0), m)
    &&& rat_le(mul_v(m, m), x)
    &&& rat_lt(x, mul_v(add_v(m, grid_v()), add_v(m, grid_v())))
}

/// Integer square root as a specification.
pub open spec fn isqrt_rec(n: nat) -> nat
    decreases n,
{
    if n == 0 {
        0
    } else {
        let r = isqrt_rec((n - 1) as nat);
        if (r + 1) * (r + 1) <= n {
            r + 1
        } else {
            r
        }
    }
}

/// The specification square root is sandwiched by its square.
pub proof fn lemma_isqrt_rec_bounds(n: nat)
    ensures
        isqrt_rec(n) * isqrt_rec(n) <= n,
        n < (isqrt_rec(n) + 1) * (isqrt_rec(n) + 1),
    decreases n,
{
    if n == 0 {
        assert(isqrt_rec(0) == 0);
        assert(isqrt_rec(n) * isqrt_rec(n) <= n);
        assert(n < (isqrt_rec(n) + 1) * (isqrt_rec(n) + 1)) by (nonlinear_arith)
            requires
                isqrt_rec(n) == 0,
                n == 0,
        ;
    } else {
        lemma_isqrt_rec_bounds((n - 1) as nat);
        let r = isqrt_rec((n - 1) as nat);
        assert(r * r <= (n - 1) as nat);
        assert(((n - 1) as nat) < (r + 1) * (r + 1));
        if (r + 1) * (r + 1) <= n {
            assert(isqrt_rec(n) == r + 1);
            assert(n < (r + 1 + 1) * (r + 1 + 1)) by (nonlinear_arith)
                requires
                    n - 1 < (r + 1) * (r + 1),
                    r >= 0,
                    n >= 1,
            ;
        } else {
            assert(isqrt_rec(n) == r);
            assert(r * r <= n);
            assert(n < (r + 1) * (r + 1));
        }
    }
}

/// Exactly the value `sqrt_floor` returns.
pub open spec fn sqrt_full(x: Ratio) -> Option<Ratio> {
    if x.n < 0 {
        None
    } else {
        let m = (x.n * 1000000000000) / x.d;
        crate::rational::new_full(isqrt_rec(m as nat) as int, 1000000)
    }
}

/// Integer square root by bisection.
fn isqrt_u128(m: u128) -> (r: u128)
    requires
        m < 0x100000000000000000000000000u128,
    ensures
        r * r <= m,
        m < (r + 1) * (r + 1),
        r <= 0x10000000000000u128,
        r as nat == isqrt_rec(m as nat),
{
    let mut lo: u128 = 0;
    let mut hi: u128 = 0x10000000000000u128;
    proof {
        assert((0x10000000000000u128 as int) * (0x10000000000000u128 as int)
            == 0x100000000000000000000000000) by (nonlinear_arith);
    }
    while lo + 1 < hi
        invariant
            lo < hi,
            hi <= 0x10000000000000u128,
            lo * lo <= m,
            m < hi * hi,
        decreases hi - lo,
    {
        let mid: u128 = lo + (hi - lo) / 2;
        proof {
            assert(mid < hi);
            assert((mid as int) * (mid as int) <= (0x10000000000000u128 as int) * (0x10000000000000u128 as int))
                by (nonlinear_arith)
                requires
                    0 <= mid as int,
                    mid as int <= 0x10000000000000,
            ;
            assert((0x10000000000000u128 as int) * (0x10000000000000u128 as int)
                == 0x100000000000000000000000000) by (nonlinear_arith);
        }
        if mid * mid <= m {
            lo = mid;
        } else {
            hi = mid;
        }
    }
    proof {
        lemma_isqrt_rec_bounds(m as nat);
        let s = isqrt_rec(m as nat);
        assert(lo as nat == s) by (nonlinear_arith)
            requires
                (lo as nat) * (lo as nat) <= m as nat,
                (m as nat) < ((lo as nat) + 1) * ((lo as nat) + 1),
                s * s <= m as nat,
                (m as nat) < (s + 1) * (s + 1),
        ;
    }
    lo
}

/// The square root of `x` rounded down to the millionth grid. `None`
/// exactly when `x` is negative.
pub fn sqrt_floor(x: &Rat) -> (r: Option<Rat>)
    ensures
        sign_v(x@) == -1 <==> r is None,
        r matches Some(q) ==> sqrt_floor_p(x@, q@),
        r is Some <==> sqrt_full(x@) is Some,
        r matches Some(q) ==> Some(q@) == sqrt_full(x@),
{
    proof {
        use_type_invariant(x);
    }
    if x.signum() == -1 {
        return None;
    }
    let p = x.num();
    let q = x.den();
    let pu: u128 = p as u128;
    let qu: u128 = q as u128;
    let scaled: u128 = pu * 1000000000000u128;
    let m: u128 = scaled / qu;
    proof {
        assert((pu as int) * 1000000000000 < 0x100000000000000000000000000) by (nonlinear_arith)
            requires
                0 <= pu as int <= 0x4000_0000_0000_0000,
        ;
        vstd::arithmetic::div_mod::lemma_fundamental_div_mod(scaled as int, qu as int);
        vstd::arithmetic::div_mod::lemma_mod_bound(scaled as int, qu as int);
        let mi = (scaled as int) / (qu as int);
        let ri = (scaled as int) % (qu as int);
        assert(mi * (qu as int) <= scaled as int && (scaled as int) < (mi + 1) * (qu as int))
            by (nonlinear_arith)
            requires
                scaled as int == qu as int * mi + ri,
                0 <= ri < qu as int,
        ;
        assert(mi <= scaled as int) by (nonlinear_arith)
            requires
                mi * (qu as int) <= scaled as int,
                qu as int >= 1,
                mi >= 0,
        ;
    }
    let s = isqrt_u128(m);
    let sr: i64 = s as i64;
    let root = match Rat::new(sr, 1000000) {
        Some(v) => v,
        None => {
            proof {
                assert(false);
            }
            return None;
        },
    };
    proof {
        let t = Ratio { n: sr as int, d: 1000000 };
        let si = s as int;
        let mi = m as int;
        let pi = p as int;
        let qi = q as int;
        // grid value of the root and its successor
        assert(si * si <= mi && mi < (si + 1) * (si + 1));
        assert(mi * qi <= pi * 1000000000000 && pi * 1000000000000 < (mi + 1) * qi)
            by (nonlinear_arith)
            requires
                qi * mi + (pi * 1000000000000) % qi == pi * 1000000000000,
                0 <= (pi * 1000000000000) % qi < qi,
        ;
        assert((si * si) * qi <= (pi * 1000000000000)) by (nonlinear_arith)
            requires
                si * si <= mi,
                mi * qi <= pi * 1000000000000,
                qi >= 1,
        ;
        assert(pi * 1000000000000 < ((si + 1) * (si + 1)) * qi) by (nonlinear_arith)
            requires
                mi < (si + 1) * (si + 1),
                pi * 1000000000000 < (mi + 1) * qi,
                qi >= 1,
        ;
        // the sandwich for the grid representative t
        assert(rat_le(int_v(0), t));
        assert(rat_le(mul_v(t, t), x@)) by (nonlinear_arith)
            requires
                mul_v(t, t).n == (sr as int) * (sr as int),
                mul_v(t, t).d == 1000000 * 1000000,
                ((sr as int) * (sr as int)) * (q as int) <= (p as int) * 1000000000000,
                x@.n == p as int,
                x@.d == q as int,
                sr as int == si,
                p as int == pi,
                q as int == qi,
        ;
        let tg = add_v(t, grid_v());
        assert(tg.n == (sr as int) * 1000000 + 1 * 1000000);
        assert(tg.d == 1000000 * 1000000);
        assert(rat_lt(x@, mul_v(tg, tg))) by (nonlinear_arith)
            requires
                mul_v(tg, tg).n == ((si + 1) * 1000000) * ((si + 1) * 1000000),
                mul_v(tg, tg).d == (1000000 * 1000000) * (1000000 * 1000000),
                pi * 1000000000000 < ((si + 1) * (si + 1)) * qi,
                x@.n == pi,
                x@.d == qi,
                qi >= 1,
                tg.n == (si + 1) * 1000000,
                tg.d == 1000000 * 1000000,
        ;
        // transfer the sandwich to the reduced root
        use_type_invariant(&root);
        crate::rational::lemma_eq_sym(root@, t);
        lemma_sqrt_p_congr_m(x@, t, root@);
    }
    Some(root)
}

/// The sandwich predicate respects value equality in the root slot.
proof fn lemma_sqrt_p_congr_m(x: Ratio, m: Ratio, m2: Ratio)
    requires
        rv_wf(x),
        rv_wf(m),
        rv_wf(m2),
        rat_eq(m, m2),
        sqrt_floor_p(x, m),
    ensures
        sqrt_floor_p(x, m2),
{
    crate::rational::lemma_le_congr(int_v(0), int_v(0), m, m2);
    crate::rational::lemma_mul_congr(m, m2, m, m2);
    crate::rational::lemma_wf_add(m, m);
    crate::rational::lemma_wf_add(m2, m2);
    crate::rational::lemma_le_congr(mul_v(m, m), mul_v(m2, m2), x, x);
    crate::rational::lemma_add_congr(m, m2, grid_v(), grid_v());
    crate::rational::lemma_wf_add(m, grid_v());
    crate::rational::lemma_wf_add(m2, grid_v());
    crate::rational::lemma_mul_congr(add_v(m, grid_v()), add_v(m2, grid_v()), add_v(m, grid_v()), add_v(m2, grid_v()));
    crate::rational::lemma_wf_add(add_v(m, grid_v()), add_v(m, grid_v()));
    crate::rational::lemma_wf_add(add_v(m2, grid_v()), add_v(m2, grid_v()));
    crate::rational::lemma_le_congr(
        x,
        x,
        mul_v(add_v(m, grid_v()), add_v(m, grid_v())),
        mul_v(add_v(m2, grid_v()), add_v(m2, grid_v())),
    );
}

/// The sandwich predicate respects value equality in the radicand slot.
pub proof fn lemma_sqrt_p_congr_x(x: Ratio, x2: Ratio, m: Ratio)
    requires
        rv_wf(x),
        rv_wf(x2),
        rat_eq(x, x2),
        sqrt_floor_p(x, m),
    ensures
        sqrt_floor_p(x2, m),
{
    crate::rational::lemma_wf_add(m, m);
    crate::rational::lemma_le_congr(mul_v(m, m), mul_v(m, m), x, x2);
    crate::rational::lemma_wf_add(m, grid_v());
    crate::rational::lemma_wf_add(add_v(m, grid_v()), add_v(m, grid_v()));
    crate::rational::lemma_le_congr(
        x,
        x2,
        mul_v(add_v(m, grid_v()), add_v(m, grid_v())),
        mul_v(add_v(m, grid_v()), add_v(m, grid_v())),
    );
}


// ---------------------------------------------------------------------------
// The camera rig and the predictor.
// ---------------------------------------------------------------------------

/// How the camera derives its orientation.
#[derive(Clone, Copy, Debug)]
pub enum CameraRotation {
    MatchY,
}

/// Mathematical value of the camera rig configuration.
pub ghost struct CamBehv {
    pub offset: Ratio,
    pub velocity_offset: Ratio,
    pub focal_point: Vec3v,
}

/// Chase-camera configuration, fixed at camera creation: distance from
/// the anchor, the anchor's offset from the vessel, and the speed at
/// which the focussing distance saturates.
#[derive(Clone, Copy, Debug)]
pub struct CameraBehaviour {
    pub offset: Rat,
    pub camera_rotation: CameraRotation,
    pub velocity_offset: Rat,
    pub focal_point: Vec3r,
}

impl View for CameraBehaviour {
    type V = CamBehv;

    open spec fn view(&self) -> CamBehv {
        CamBehv {
            offset: self.offset@,
            velocity_offset: self.velocity_offset@,
            focal_point: self.focal_point@,
        }
    }
}

/// Mathematical value of a camera pose.
pub ghost struct CamPosev {
    pub position: Vec3v,
    pub look: Vec3v,
}

/// The camera's pose: its position and the (unnormalised) direction from
/// it to the focus point, with world up as the up hint.
#[derive(Clone, Copy, Debug)]
pub struct CameraPose {
    pub position: Vec3r,
    pub look: Vec3r,
}

impl View for CameraPose {
    type V = CamPosev;

    open spec fn view(&self) -> CamPosev {
        CamPosev { position: self.position@, look: self.look@ }
    }
}

pub open spec fn unit_x_v() -> Vec3v {
    Vec3v { x: int_v(1), y: int_v(0), z: int_v(0) }
}

/// The vessel's forward axis in the world frame: local x rotated by the
/// orientation.
pub open spec fn forward_axis_v(r: Rotv) -> Vec3v {
    rot_apply_v(r, unit_x_v())
}

/// Steepness of the speed-to-distance ramp.
pub open spec fn focussing_steepness_v() -> Ratio {
    Ratio { n: 1, d: 100 }
}

/// Steepness of the turn-rate-to-blend ramp.
pub open spec fn blend_steepness_v() -> Ratio {
    Ratio { n: 1, d: 10 }
}

/// Look-ahead distance for a given speed: a logistic ramp that saturates
/// at the rig's `velocity_offset`.
pub open spec fn focussing_distance_v(beh: CamBehv, speed: Ratio) -> Ratio {
    logistic_v(speed, beh.velocity_offset, focussing_steepness_v(), int_v(1))
}

/// Blend factor between straight and swept focus for a given turn rate.
pub open spec fn blend_factor_v(angmag: Ratio) -> Ratio {
    logistic_v(angmag, int_v(2), blend_steepness_v(), int_v(1))
}

/// Focus point straight ahead: the position plus the look-ahead distance
/// along the forward axis.
pub open spec fn straight_focus_v(pose: Posev, d: Ratio) -> Vec3v {
    v3_add(pose.position, v3_scale(d, forward_axis_v(pose.orientation)))
}

/// Focus point swept along the predicted turn circle: the vessel position
/// rotated about the turn-circle centre by `d` of arc length.
pub open spec fn rotated_focus_v(pose: Posev, vel: Velv, d: Ratio) -> Vec3v {
    let center = turn_circle_center_v(pose, vel);
    v3_add(
        center,
        rot_apply_v(angle_rot_v(div_v(d, turn_radius_v(vel))), v3_sub(pose.position, center)),
    )
}

/// Linear interpolation between two points.
pub open spec fn lerp_v(a: Vec3v, b: Vec3v, t: Ratio) -> Vec3v {
    v3_add(a, v3_scale(t, v3_sub(b, a)))
}

/// The predicted focus point, given the vessel's speed and turn-rate
/// magnitudes: straight ahead when the yaw rate is zero, else the blend
/// of the straight and the swept focus points.
pub open spec fn focussing_point_v(
    pose: Posev,
    vel: Velv,
    beh: CamBehv,
    speed: Ratio,
    angmag: Ratio,
) -> Vec3v {
    let d = focussing_distance_v(beh, speed);
    let sf = straight_focus_v(pose, d);
    if is_zero_v(vel.angular.y) {
        sf
    } else {
        lerp_v(sf, rotated_focus_v(pose, vel, d), blend_factor_v(angmag))
    }
}

/// The point the camera rig is anchored to.
pub open spec fn camera_anchor_v(pose: Posev, beh: CamBehv) -> Vec3v {
    v3_add(pose.position, beh.focal_point)
}

/// The camera position: the anchor pushed along the direction toward the
/// focus point by the rig's offset, using the magnitude `mnorm` of that
/// direction.
pub open spec fn camera_position_v(pose: Posev, beh: CamBehv, focus: Vec3v, mnorm: Ratio) -> Vec3v {
    let anchor = camera_anchor_v(pose, beh);
    v3_add(anchor, v3_scale(div_v(beh.offset, mnorm), v3_sub(focus, anchor)))
}

/// The full camera pose: position and look direction computed in world
/// space, then re-expressed by rotating both about the vessel's position
/// by its orientation, so the rig stays attached in vessel-local space.
pub open spec fn track_camera_v(
    pose: Posev,
    vel: Velv,
    beh: CamBehv,
    speed: Ratio,
    angmag: Ratio,
    mnorm: Ratio,
) -> CamPosev {
    let focus = focussing_point_v(pose, vel, beh, speed, angmag);
    let campos = camera_position_v(pose, beh, focus, mnorm);
    let look = v3_sub(focus, campos);
    CamPosev {
        position: v3_add(
            pose.position,
            rot_apply_v(pose.orientation, v3_sub(campos, pose.position)),
        ),
        look: rot_apply_v(pose.orientation, look),
    }
}

/// With zero yaw rate the focus point lies exactly on the vessel's
/// forward ray, at the look-ahead distance given by the speed.
pub proof fn lemma_straight_focus_on_ray(
    pose: Posev,
    vel: Velv,
    beh: CamBehv,
    speed: Ratio,
    angmag: Ratio,
)
    requires
        is_zero_v(vel.angular.y),
    ensures
        focussing_point_v(pose, vel, beh, speed, angmag) == v3_add(
            pose.position,
            v3_scale(focussing_distance_v(beh, speed), forward_axis_v(pose.orientation)),
        ),
{
}

/// Full congruence of the logistic interpolation.
pub proof fn lemma_logistic_congr(
    x: Ratio,
    x2: Ratio,
    sup: Ratio,
    sup2: Ratio,
    k: Ratio,
    k2: Ratio,
    mid: Ratio,
    mid2: Ratio,
)
    requires
        rv_wf(x),
        rv_wf(x2),
        rv_wf(sup),
        rv_wf(sup2),
        rv_wf(k),
        rv_wf(k2),
        rv_wf(mid),
        rv_wf(mid2),
        rat_eq(x, x2),
        rat_eq(sup, sup2),
        rat_eq(k, k2),
        rat_eq(mid, mid2),
    ensures
        rat_eq(logistic_v(x, sup, k, mid), logistic_v(x2, sup2, k2, mid2)),
{
    let y = neg_v(mul_v(k, sub_v(x, mid)));
    let y2 = neg_v(mul_v(k2, sub_v(x2, mid2)));
    crate::rational::lemma_wf_add(x, mid);
    crate::rational::lemma_wf_add(x2, mid2);
    crate::rational::lemma_sub_congr(x, x2, mid, mid2);
    crate::rational::lemma_wf_add(k, sub_v(x, mid));
    crate::rational::lemma_wf_add(k2, sub_v(x2, mid2));
    crate::rational::lemma_mul_congr(k, k2, sub_v(x, mid), sub_v(x2, mid2));
    crate::rational::lemma_neg_congr(mul_v(k, sub_v(x, mid)), mul_v(k2, sub_v(x2, mid2)));
    lemma_exp_pos(y);
    lemma_exp_pos(y2);
    lemma_exp_congr(y, y2);
    crate::rational::lemma_add_congr(int_v(1), int_v(1), exp_approx_v(y), exp_approx_v(y2));
    lemma_logistic_den_pos(x, k, mid);
    lemma_logistic_den_pos(x2, k2, mid2);
    crate::rational::lemma_div_congr(
        sup,
        sup2,
        add_v(int_v(1), exp_approx_v(y)),
        add_v(int_v(1), exp_approx_v(y2)),
    );
}

/// The logistic's value is well formed.
pub proof fn lemma_logistic_wf(x: Ratio, sup: Ratio, k: Ratio, mid: Ratio)
    requires
        rv_wf(x),
        rv_wf(sup),
        rv_wf(k),
        rv_wf(mid),
    ensures
        rv_wf(logistic_v(x, sup, k, mid)),
{
    lemma_logistic_den_pos(x, k, mid);
    crate::rational::lemma_wf_div(
        sup,
        add_v(int_v(1), exp_approx_v(neg_v(mul_v(k, sub_v(x, mid))))),
    );
}


/// Exactly the focus point `calculate_focussing_point` returns.
pub open spec fn focussing_point_full(pose: Posev, vel: Velv, beh: CamBehv) -> Option<Vec3v> {
    match crate::vec3::v3_dot_full(vel.linear, vel.linear) {
        None => None,
        Some(m2l) => match sqrt_full(m2l) {
            None => None,
            Some(speed) => match crate::vec3::v3_dot_full(vel.angular, vel.angular) {
                None => None,
                Some(m2a) => match sqrt_full(m2a) {
                    None => None,
                    Some(angmag) => match crate::rational::new_full(1, 100) {
                        None => None,
                        Some(steep) => match logistic_full(
                            speed,
                            beh.velocity_offset,
                            steep,
                            int_v(1),
                        ) {
                            None => None,
                            Some(d) => match crate::rotation::rot_apply_full(
                                pose.orientation,
                                unit_x_v(),
                            ) {
                                None => None,
                                Some(fwd) => match crate::vec3::v3_scale_full(d, fwd) {
                                    None => None,
                                    Some(fd) => match crate::vec3::v3_add_full(pose.position, fd) {
                                        None => None,
                                        Some(sfp) => if is_zero_v(vel.angular.y) {
                                            Some(sfp)
                                        } else {
                                            focussing_point_arc_full(pose, vel, angmag, d, sfp)
                                        },
                                    },
                                },
                            },
                        },
                    },
                },
            },
        },
    }
}

/// The turning tail of `focussing_point_full`: the swept focus point and
/// the blend toward it.
pub open spec fn focussing_point_arc_full(
    pose: Posev,
    vel: Velv,
    angmag: Ratio,
    d: Ratio,
    sfp: Vec3v,
) -> Option<Vec3v> {
    match crate::movements::turn_circle_full(pose, vel) {
        None => None,
        Some(rc) => match crate::rational::div_full(d, rc.0) {
            None => None,
            Some(sweepc) => match crate::rotation::from_angle_full(sweepc) {
                None => None,
                Some(rsweep) => match crate::vec3::v3_sub_full(pose.position, rc.1) {
                    None => None,
                    Some(rel) => match crate::rotation::rot_apply_full(rsweep, rel) {
                        None => None,
                        Some(rotrel) => match crate::vec3::v3_add_full(rc.1, rotrel) {
                            None => None,
                            Some(rfp) => match crate::rational::new_full(1, 10) {
                                None => None,
                                Some(steep10) => match logistic_full(
                                    angmag,
                                    int_v(2),
                                    steep10,
                                    int_v(1),
                                ) {
                                    None => None,
                                    Some(bl) => match crate::vec3::v3_sub_full(rfp, sfp) {
                                        None => None,
                                        Some(diffv) => match crate::vec3::v3_scale_full(bl, diffv) {
                                            None => None,
                                            Some(sc) => crate::vec3::v3_add_full(sfp, sc),
                                        },
                                    },
                                },
                            },
                        },
                    },
                },
            },
        },
    }
}

/// Exactly the camera position `calculate_camera_position` returns.
pub open spec fn camera_position_full(pose: Posev, beh: CamBehv, focus: Vec3v) -> Option<Vec3v> {
    match crate::vec3::v3_add_full(pose.position, beh.focal_point) {
        None => None,
        Some(anchor) => match crate::vec3::v3_sub_full(focus, anchor) {
            None => None,
            Some(diff) => match crate::vec3::v3_dot_full(diff, diff) {
                None => None,
                Some(m2) => match sqrt_full(m2) {
                    None => None,
                    Some(m) => if is_zero_v(m) {
                        None
                    } else {
                        match crate::rational::div_full(beh.offset, m) {
                            None => None,
                            Some(f) => match crate::vec3::v3_scale_full(f, diff) {
                                None => None,
                                Some(sc) => crate::vec3::v3_add_full(anchor, sc),
                            },
                        }
                    },
                },
            },
        },
    }
}

/// Exactly the camera pose `track_camera` returns.
pub open spec fn track_camera_full(pose: Posev, vel: Velv, beh: CamBehv) -> Option<CamPosev> {
    match focussing_point_full(pose, vel, beh) {
        None => None,
        Some(focus) => match camera_position_full(pose, beh, focus) {
            None => None,
            Some(campos) => match crate::vec3::v3_sub_full(focus, campos) {
                None => None,
                Some(look) => match crate::vec3::v3_sub_full(campos, pose.position) {
                    None => None,
                    Some(relpos) => match crate::rotation::rot_apply_full(
                        pose.orientation,
                        relpos,
                    ) {
                        None => None,
                        Some(rotrel) => match crate::vec3::v3_add_full(pose.position, rotrel) {
                            None => None,
                            Some(outpos) => match crate::rotation::rot_apply_full(
                                pose.orientation,
                                look,
                            ) {
                                None => None,
                                Some(outlook) => Some(
                                    CamPosev { position: outpos, look: outlook },
                                ),
                            },
                        },
                    },
                },
            },
        },
    }
}

/// The predicted focus point for the tracked vessel. Matches
/// `focussing_point_v` exactly, where `speed` and `angmag` are the
/// grid-floor magnitudes of the linear and angular velocities. `None`
/// when the exact arithmetic leaves the representable range, or in the
/// degenerate turning case of a zero turn radius.
pub fn calculate_focussing_point(
    vessel_velocity: &VelocityVector,
    camera_behaviour: &CameraBehaviour,
    vessel_transform: &Pose,
) -> (r: Option<Vec3r>)
    ensures
        r matches Some(w) ==> exists|speed: Ratio, angmag: Ratio|
            {
                &&& #[trigger] sqrt_floor_p(
                    v3_dot(vessel_velocity@.linear, vessel_velocity@.linear),
                    speed,
                )
                &&& #[trigger] sqrt_floor_p(
                    v3_dot(vessel_velocity@.angular, vessel_velocity@.angular),
                    angmag,
                )
                &&& v3_eq(
                    w@,
                    focussing_point_v(
                        vessel_transform@,
                        vessel_velocity@,
                        camera_behaviour@,
                        speed,
                        angmag,
                    ),
                )
            },
        r is Some ==> is_zero_v(vessel_velocity@.angular.y) || !is_zero_v(
            turn_radius_v(vessel_velocity@),
        ),
        r is Some <==> focussing_point_full(vessel_transform@, vessel_velocity@, camera_behaviour@)
            is Some,
        r matches Some(w) ==> Some(w@) == focussing_point_full(
            vessel_transform@,
            vessel_velocity@,
            camera_behaviour@,
        ),
{
    proof {
        use_type_invariant(&vessel_velocity.linear_velocity.x);
        use_type_invariant(&vessel_velocity.linear_velocity.y);
        use_type_invariant(&vessel_velocity.linear_velocity.z);
        use_type_invariant(&vessel_velocity.angular_velocity.x);
        use_type_invariant(&vessel_velocity.angular_velocity.y);
        use_type_invariant(&vessel_velocity.angular_velocity.z);
        use_type_invariant(&vessel_transform.position.x);
        use_type_invariant(&vessel_transform.position.y);
        use_type_invariant(&vessel_transform.position.z);
        use_type_invariant(&vessel_transform.orientation.c);
        use_type_invariant(&vessel_transform.orientation.s);
        use_type_invariant(&camera_behaviour.velocity_offset);
    }
    let m2lin = match vessel_velocity.linear_velocity.checked_dot(&vessel_velocity.linear_velocity) {
        Some(v) => v,
        None => {
            return None;
        },
    };
    let speedr = match sqrt_floor(&m2lin) {
        Some(v) => v,
        None => {
            return None;
        },
    };
    let m2ang = match vessel_velocity.angular_velocity.checked_dot(
        &vessel_velocity.angular_velocity,
    ) {
        Some(v) => v,
        None => {
            return None;
        },
    };
    let angr = match sqrt_floor(&m2ang) {
        Some(v) => v,
        None => {
            return None;
        },
    };
    let one = Rat::one();
    let steep = match Rat::new(1, 100) {
        Some(v) => v,
        None => {
            return None;
        },
    };
    let d = match logistic_interpolation(&speedr, &camera_behaviour.velocity_offset, &steep, &one) {
        Some(v) => v,
        None => {
            return None;
        },
    };
    let xaxis = Vec3r::new(Rat::one(), Rat::zero(), Rat::zero());
    let fwd = match vessel_transform.orientation.checked_apply(&xaxis) {
        Some(v) => v,
        None => {
            return None;
        },
    };
    let fd = match fwd.checked_scale(&d) {
        Some(v) => v,
        None => {
            return None;
        },
    };
    let sfp = match vessel_transform.position.checked_add(&fd) {
        Some(v) => v,
        None => {
            return None;
        },
    };
    let ghost posev = vessel_transform@;
    let ghost velv = vessel_velocity@;
    let ghost behv = camera_behaviour@;
    let ghost sp = speedr@;
    let ghost am = angr@;
    let ghost dv = focussing_distance_v(behv, sp);
    let ghost sfv = straight_focus_v(posev, dv);
    proof {
        use_type_invariant(&m2lin);
        use_type_invariant(&m2ang);
        use_type_invariant(&speedr);
        use_type_invariant(&angr);
        use_type_invariant(&steep);
        use_type_invariant(&d);
        use_type_invariant(&fwd.x);
        use_type_invariant(&fwd.y);
        use_type_invariant(&fwd.z);
        use_type_invariant(&fd.x);
        use_type_invariant(&fd.y);
        use_type_invariant(&fd.z);
        use_type_invariant(&sfp.x);
        use_type_invariant(&sfp.y);
        use_type_invariant(&sfp.z);
        crate::vec3::lemma_v3_wf_ops(velv.linear, velv.linear, int_v(1));
        crate::vec3::lemma_v3_wf_ops(velv.angular, velv.angular, int_v(1));
        lemma_sqrt_p_congr_x(m2lin@, v3_dot(velv.linear, velv.linear), sp);
        lemma_sqrt_p_congr_x(m2ang@, v3_dot(velv.angular, velv.angular), am);
        lemma_logistic_congr(
            sp,
            sp,
            behv.velocity_offset,
            behv.velocity_offset,
            steep@,
            focussing_steepness_v(),
            int_v(1),
            int_v(1),
        );
        lemma_logistic_wf(sp, behv.velocity_offset, steep@, int_v(1));
        crate::rational::lemma_eq_trans(
            d@,
            logistic_v(sp, behv.velocity_offset, steep@, int_v(1)),
            dv,
        );
        lemma_logistic_wf(sp, behv.velocity_offset, focussing_steepness_v(), int_v(1));
        crate::rotation::lemma_rot_apply_wf(posev.orientation, unit_x_v());
        crate::vec3::lemma_v3_scale_congr(d@, dv, fwd@, forward_axis_v(posev.orientation));
        crate::vec3::lemma_v3_wf_ops(fwd@, fwd@, d@);
        crate::vec3::lemma_v3_eq_trans(
            fd@,
            v3_scale(d@, fwd@),
            v3_scale(dv, forward_axis_v(posev.orientation)),
        );
        crate::vec3::lemma_v3_wf_ops(forward_axis_v(posev.orientation), fwd@, dv);
        crate::vec3::lemma_v3_add_congr(
            posev.position,
            posev.position,
            fd@,
            v3_scale(dv, forward_axis_v(posev.orientation)),
        );
        crate::vec3::lemma_v3_wf_ops(posev.position, fd@, int_v(1));
        crate::vec3::lemma_v3_eq_trans(sfp@, v3_add(posev.position, fd@), sfv);
    }
    if vessel_velocity.angular_velocity.y.is_zero() {
        proof {
            assert(sqrt_floor_p(v3_dot(velv.linear, velv.linear), sp) && sqrt_floor_p(
                v3_dot(velv.angular, velv.angular),
                am,
            ) && v3_eq(sfp@, focussing_point_v(posev, velv, behv, sp, am)));
        }
        return Some(sfp);
    }
    let pair = match calculate_turn_circle_center(vessel_transform, vessel_velocity) {
        Some(v) => v,
        None => {
            return None;
        },
    };
    let radius = pair.0;
    let center = pair.1;
    let sweepc = match d.checked_div(&radius) {
        Some(v) => v,
        None => {
            return None;
        },
    };
    let rsweep = match Rot::checked_from_angle(&sweepc) {
        Some(v) => v,
        None => {
            return None;
        },
    };
    let rel = match vessel_transform.position.checked_sub(&center) {
        Some(v) => v,
        None => {
            return None;
        },
    };
    let rotrel = match rsweep.checked_apply(&rel) {
        Some(v) => v,
        None => {
            return None;
        },
    };
    let rfp = match center.checked_add(&rotrel) {
        Some(v) => v,
        None => {
            return None;
        },
    };
    let two = Rat::from_int(2);
    let steep10 = match Rat::new(1, 10) {
        Some(v) => v,
        None => {
            return None;
        },
    };
    let bl = match logistic_interpolation(&angr, &two, &steep10, &one) {
        Some(v) => v,
        None => {
            return None;
        },
    };
    let diffv = match rfp.checked_sub(&sfp) {
        Some(v) => v,
        None => {
            return None;
        },
    };
    let sc = match diffv.checked_scale(&bl) {
        Some(v) => v,
        None => {
            return None;
        },
    };
    let focus = match sfp.checked_add(&sc) {
        Some(v) => v,
        None => {
            return None;
        },
    };
    proof {
        use_type_invariant(&radius);
        use_type_invariant(&center.x);
        use_type_invariant(&center.y);
        use_type_invariant(&center.z);
        use_type_invariant(&sweepc);
        use_type_invariant(&rsweep.c);
        use_type_invariant(&rsweep.s);
        use_type_invariant(&rel.x);
        use_type_invariant(&rel.y);
        use_type_invariant(&rel.z);
        use_type_invariant(&rotrel.x);
        use_type_invariant(&rotrel.y);
        use_type_invariant(&rotrel.z);
        use_type_invariant(&rfp.x);
        use_type_invariant(&rfp.y);
        use_type_invariant(&rfp.z);
        use_type_invariant(&steep10);
        use_type_invariant(&bl);
        use_type_invariant(&diffv.x);
        use_type_invariant(&diffv.y);
        use_type_invariant(&diffv.z);
        use_type_invariant(&sc.x);
        use_type_invariant(&sc.y);
        use_type_invariant(&sc.z);
        use_type_invariant(&focus.x);
        use_type_invariant(&focus.y);
        use_type_invariant(&focus.z);
        let rv = turn_radius_v(velv);
        let cv = turn_circle_center_v(posev, velv);
        let swv = div_v(dv, rv);
        let rsv = angle_rot_v(swv);
        let rfv = rotated_focus_v(posev, velv, dv);
        let blv = blend_factor_v(am);
        crate::rational::lemma_wf_div(velv.linear.x, velv.angular.y);
        crate::rational::lemma_wf_add(
            div_v(velv.linear.x, velv.angular.y),
            crate::movements::turn_radius_scale_v(),
        );
        crate::rational::lemma_sign_congr(radius@, rv);
        crate::rational::lemma_div_congr(d@, dv, radius@, rv);
        crate::rational::lemma_wf_div(d@, radius@);
        crate::rational::lemma_eq_trans(sweepc@, div_v(d@, radius@), swv);
        crate::rational::lemma_wf_div(dv, rv);
        crate::rotation::lemma_angle_rot_congr(sweepc@, swv);
        crate::rotation::lemma_angle_rot_wf(sweepc@);
        crate::rotation::lemma_angle_rot_wf(swv);
        crate::rotation::lemma_rot_eq_trans(rsweep@, angle_rot_v(sweepc@), rsv);
        crate::rotation::lemma_rot_apply_wf(
            posev.orientation,
            Vec3v { x: int_v(0), y: int_v(0), z: neg_v(rv) },
        );
        crate::vec3::lemma_v3_wf_ops(
            posev.position,
            rot_apply_v(posev.orientation, Vec3v { x: int_v(0), y: int_v(0), z: neg_v(rv) }),
            int_v(1),
        );
        crate::vec3::lemma_v3_add_congr(posev.position, posev.position, center@, cv);
        crate::vec3::lemma_v3_wf_ops(posev.position, center@, int_v(1));
        crate::vec3::lemma_v3_eq_trans(
            rel@,
            v3_sub(posev.position, center@),
            v3_sub(posev.position, cv),
        );
        crate::vec3::lemma_v3_wf_ops(posev.position, cv, int_v(1));
        crate::rotation::lemma_rot_apply_congr(rsweep@, rsv, rel@, v3_sub(posev.position, cv));
        crate::rotation::lemma_rot_apply_wf(rsweep@, rel@);
        crate::vec3::lemma_v3_eq_trans(
            rotrel@,
            rot_apply_v(rsweep@, rel@),
            rot_apply_v(rsv, v3_sub(posev.position, cv)),
        );
        crate::rotation::lemma_rot_apply_wf(rsv, v3_sub(posev.position, cv));
        crate::vec3::lemma_v3_add_congr(
            center@,
            cv,
            rotrel@,
            rot_apply_v(rsv, v3_sub(posev.position, cv)),
        );
        crate::vec3::lemma_v3_wf_ops(center@, rotrel@, int_v(1));
        crate::vec3::lemma_v3_eq_trans(rfp@, v3_add(center@, rotrel@), rfv);
        lemma_logistic_congr(
            am,
            am,
            two@,
            int_v(2),
            steep10@,
            blend_steepness_v(),
            int_v(1),
            int_v(1),
        );
        lemma_logistic_wf(am, two@, steep10@, int_v(1));
        crate::rational::lemma_eq_trans(bl@, logistic_v(am, two@, steep10@, int_v(1)), blv);
        lemma_logistic_wf(am, int_v(2), blend_steepness_v(), int_v(1));
        crate::vec3::lemma_v3_wf_ops(
            cv,
            rot_apply_v(rsv, v3_sub(posev.position, cv)),
            int_v(1),
        );
        crate::vec3::lemma_v3_wf_ops(
            posev.position,
            v3_scale(dv, forward_axis_v(posev.orientation)),
            int_v(1),
        );
        crate::vec3::lemma_v3_wf_ops(rfv, cv, int_v(1));
        crate::vec3::lemma_v3_wf_ops(sfv, cv, int_v(1));
        crate::vec3::lemma_v3_add_congr(rfp@, rfv, sfp@, sfv);
        crate::vec3::lemma_v3_wf_ops(rfp@, sfp@, int_v(1));
        crate::vec3::lemma_v3_eq_trans(diffv@, v3_sub(rfp@, sfp@), v3_sub(rfv, sfv));
        crate::vec3::lemma_v3_wf_ops(rfv, sfv, int_v(1));
        crate::vec3::lemma_v3_scale_congr(bl@, blv, diffv@, v3_sub(rfv, sfv));
        crate::vec3::lemma_v3_wf_ops(diffv@, diffv@, bl@);
        crate::vec3::lemma_v3_eq_trans(
            sc@,
            v3_scale(bl@, diffv@),
            v3_scale(blv, v3_sub(rfv, sfv)),
        );
        crate::vec3::lemma_v3_wf_ops(v3_sub(rfv, sfv), diffv@, blv);
        crate::vec3::lemma_v3_add_congr(sfp@, sfv, sc@, v3_scale(blv, v3_sub(rfv, sfv)));
        crate::vec3::lemma_v3_wf_ops(sfp@, sc@, int_v(1));
        crate::vec3::lemma_v3_eq_trans(
            focus@,
            v3_add(sfp@, sc@),
            focussing_point_v(posev, velv, behv, sp, am),
        );
        assert(sqrt_floor_p(v3_dot(velv.linear, velv.linear), sp) && sqrt_floor_p(
            v3_dot(velv.angular, velv.angular),
            am,
        ) && v3_eq(focus@, focussing_point_v(posev, velv, behv, sp, am)));
        assert(!is_zero_v(turn_radius_v(velv)));
    }
    Some(focus)
}



/// The focus-point formula is well formed whenever a turn circle exists
/// where it is consulted.
pub proof fn lemma_focussing_point_wf(pose: Posev, vel: Velv, beh: CamBehv, sp: Ratio, am: Ratio)
    requires
        crate::movements::pose_wf(pose),
        crate::movements::vel_wf(vel),
        rv_wf(beh.velocity_offset),
        rv_wf(sp),
        rv_wf(am),
        is_zero_v(vel.angular.y) || !is_zero_v(turn_radius_v(vel)),
    ensures
        v3_wf(focussing_point_v(pose, vel, beh, sp, am)),
{
    let d = focussing_distance_v(beh, sp);
    let fa = forward_axis_v(pose.orientation);
    lemma_logistic_wf(sp, beh.velocity_offset, focussing_steepness_v(), int_v(1));
    crate::rotation::lemma_rot_apply_wf(pose.orientation, unit_x_v());
    crate::vec3::lemma_v3_wf_ops(fa, fa, d);
    crate::vec3::lemma_v3_wf_ops(pose.position, v3_scale(d, fa), int_v(1));
    if !is_zero_v(vel.angular.y) {
        let rv = turn_radius_v(vel);
        let sf = straight_focus_v(pose, d);
        crate::rational::lemma_wf_div(vel.linear.x, vel.angular.y);
        crate::rational::lemma_wf_add(
            div_v(vel.linear.x, vel.angular.y),
            crate::movements::turn_radius_scale_v(),
        );
        let off = Vec3v { x: int_v(0), y: int_v(0), z: neg_v(rv) };
        let cv = turn_circle_center_v(pose, vel);
        crate::rotation::lemma_rot_apply_wf(pose.orientation, off);
        crate::vec3::lemma_v3_wf_ops(pose.position, rot_apply_v(pose.orientation, off), int_v(1));
        crate::rational::lemma_wf_div(d, rv);
        crate::rotation::lemma_angle_rot_wf(div_v(d, rv));
        crate::vec3::lemma_v3_wf_ops(pose.position, cv, int_v(1));
        crate::rotation::lemma_rot_apply_wf(
            angle_rot_v(div_v(d, rv)),
            v3_sub(pose.position, cv),
        );
        crate::vec3::lemma_v3_wf_ops(
            cv,
            rot_apply_v(angle_rot_v(div_v(d, rv)), v3_sub(pose.position, cv)),
            int_v(1),
        );
        let rf = rotated_focus_v(pose, vel, d);
        lemma_logistic_wf(am, int_v(2), blend_steepness_v(), int_v(1));
        let bl = blend_factor_v(am);
        crate::vec3::lemma_v3_wf_ops(rf, sf, int_v(1));
        crate::vec3::lemma_v3_wf_ops(v3_sub(rf, sf), sf, bl);
        crate::vec3::lemma_v3_wf_ops(sf, v3_scale(bl, v3_sub(rf, sf)), int_v(1));
    }
}

/// The magnitude witness for the camera-position step: `mnorm` is the
/// grid-floor magnitude of the vector from the rig anchor to the focus
/// point, and it is not zero.
pub open spec fn camera_norm_ok(pose: Posev, beh: CamBehv, focus: Vec3v, mnorm: Ratio) -> bool {
    &&& sqrt_floor_p(
        v3_dot(v3_sub(focus, camera_anchor_v(pose, beh)), v3_sub(focus, camera_anchor_v(pose, beh))),
        mnorm,
    )
    &&& !is_zero_v(mnorm)
}

/// The camera's position for a given focus point: the rig anchor pushed
/// along the direction to the focus by the rig offset, exactly as
/// `camera_position_v` with `mnorm` the grid-floor magnitude of that
/// direction. `None` when that magnitude is zero (no direction to look
/// along) or the exact arithmetic leaves the representable range.
pub fn calculate_camera_position(
    vessel_transform: &Pose,
    camera_behaviour: &CameraBehaviour,
    focussing_point: &Vec3r,
) -> (r: Option<Vec3r>)
    ensures
        r matches Some(w) ==> exists|mnorm: Ratio|
            #[trigger] camera_norm_ok(vessel_transform@, camera_behaviour@, focussing_point@, mnorm)
                && v3_eq(
                w@,
                camera_position_v(vessel_transform@, camera_behaviour@, focussing_point@, mnorm),
            ),
        r is Some <==> camera_position_full(vessel_transform@, camera_behaviour@, focussing_point@)
            is Some,
        r matches Some(w) ==> Some(w@) == camera_position_full(
            vessel_transform@,
            camera_behaviour@,
            focussing_point@,
        ),
{
    proof {
        use_type_invariant(&vessel_transform.position.x);
        use_type_invariant(&vessel_transform.position.y);
        use_type_invariant(&vessel_transform.position.z);
        use_type_invariant(&camera_behaviour.focal_point.x);
        use_type_invariant(&camera_behaviour.focal_point.y);
        use_type_invariant(&camera_behaviour.focal_point.z);
        use_type_invariant(&camera_behaviour.offset);
        use_type_invariant(&focussing_point.x);
        use_type_invariant(&focussing_point.y);
        use_type_invariant(&focussing_point.z);
    }
    let anchor = match vessel_transform.position.checked_add(&camera_behaviour.focal_point) {
        Some(v) => v,
        None => {
            return None;
        },
    };
    let diff = match focussing_point.checked_sub(&anchor) {
        Some(v) => v,
        None => {
            return None;
        },
    };
    let m2 = match diff.checked_dot(&diff) {
        Some(v) => v,
        None => {
            return None;
        },
    };
    let m = match sqrt_floor(&m2) {
        Some(v) => v,
        None => {
            return None;
        },
    };
    if m.is_zero() {
        return None;
    }
    let f = match camera_behaviour.offset.checked_div(&m) {
        Some(v) => v,
        None => {
            return None;
        },
    };
    let sc = match diff.checked_scale(&f) {
        Some(v) => v,
        None => {
            return None;
        },
    };
    let campos = match anchor.checked_add(&sc) {
        Some(v) => v,
        None => {
            return None;
        },
    };
    proof {
        use_type_invariant(&anchor.x);
        use_type_invariant(&anchor.y);
        use_type_invariant(&anchor.z);
        use_type_invariant(&diff.x);
        use_type_invariant(&diff.y);
        use_type_invariant(&diff.z);
        use_type_invariant(&m2);
        use_type_invariant(&m);
        use_type_invariant(&f);
        use_type_invariant(&sc.x);
        use_type_invariant(&sc.y);
        use_type_invariant(&sc.z);
        use_type_invariant(&campos.x);
        use_type_invariant(&campos.y);
        use_type_invariant(&campos.z);
        let posev = vessel_transform@;
        let behv = camera_behaviour@;
        let focusv = focussing_point@;
        let av = camera_anchor_v(posev, behv);
        let dv = v3_sub(focusv, av);
        let mv = m@;
        // anchor and difference
        crate::vec3::lemma_v3_wf_ops(posev.position, behv.focal_point, int_v(1));
        crate::vec3::lemma_v3_add_congr(focusv, focusv, anchor@, av);
        crate::vec3::lemma_v3_wf_ops(focusv, anchor@, int_v(1));
        crate::vec3::lemma_v3_eq_trans(diff@, v3_sub(focusv, anchor@), dv);
        crate::vec3::lemma_v3_wf_ops(focusv, av, int_v(1));
        // the magnitude witness
        crate::vec3::lemma_v3_wf_ops(diff@, diff@, int_v(1));
        crate::vec3::lemma_v3_wf_ops(dv, dv, int_v(1));
        crate::vec3::lemma_v3_dot_congr(diff@, dv, diff@, dv);
        crate::rational::lemma_eq_trans(m2@, v3_dot(diff@, diff@), v3_dot(dv, dv));
        lemma_sqrt_p_congr_x(m2@, v3_dot(dv, dv), mv);
        // the scale factor and the position
        crate::rational::lemma_div_congr(behv.offset, behv.offset, m@, mv);
        crate::rational::lemma_wf_div(behv.offset, m@);
        crate::vec3::lemma_v3_scale_congr(f@, div_v(behv.offset, mv), diff@, dv);
        crate::rational::lemma_eq_trans(f@, div_v(behv.offset, m@), div_v(behv.offset, mv));
        crate::vec3::lemma_v3_wf_ops(diff@, diff@, f@);
        crate::vec3::lemma_v3_eq_trans(
            sc@,
            v3_scale(f@, diff@),
            v3_scale(div_v(behv.offset, mv), dv),
        );
        crate::vec3::lemma_v3_wf_ops(dv, dv, div_v(behv.offset, mv));
        crate::vec3::lemma_v3_add_congr(
            anchor@,
            av,
            sc@,
            v3_scale(div_v(behv.offset, mv), dv),
        );
        crate::vec3::lemma_v3_wf_ops(anchor@, sc@, int_v(1));
        crate::vec3::lemma_v3_eq_trans(
            campos@,
            v3_add(anchor@, sc@),
            camera_position_v(posev, behv, focusv, mv),
        );
        assert(camera_norm_ok(posev, behv, focusv, mv) && v3_eq(
            campos@,
            camera_position_v(posev, behv, focusv, mv),
        ));
    }
    Some(campos)
}

/// One full camera update for the tracked vessel, matching
/// `track_camera_v`: focus point, camera position, and the re-expression
/// of the resulting pose about the vessel by its orientation. `None` in
/// the degenerate cases of the two stages above.
pub fn track_camera(
    vessel_transform: &Pose,
    velocity_vector: &VelocityVector,
    camera_behaviour: &CameraBehaviour,
) -> (r: Option<CameraPose>)
    ensures
        r matches Some(w) ==> exists|speed: Ratio, angmag: Ratio, mnorm: Ratio|
            {
                &&& #[trigger] sqrt_floor_p(
                    v3_dot(velocity_vector@.linear, velocity_vector@.linear),
                    speed,
                )
                &&& #[trigger] sqrt_floor_p(
                    v3_dot(velocity_vector@.angular, velocity_vector@.angular),
                    angmag,
                )
                &&& {
                    &&& #[trigger] camera_norm_ok(
                        vessel_transform@,
                        camera_behaviour@,
                        focussing_point_v(
                            vessel_transform@,
                            velocity_vector@,
                            camera_behaviour@,
                            speed,
                            angmag,
                        ),
                        mnorm,
                    )
                    &&& v3_eq(
                        w@.position,
                        track_camera_v(
                            vessel_transform@,
                            velocity_vector@,
                            camera_behaviour@,
                            speed,
                            angmag,
                            mnorm,
                        ).position,
                    )
                    &&& v3_eq(
                        w@.look,
                        track_camera_v(
                            vessel_transform@,
                            velocity_vector@,
                            camera_behaviour@,
                            speed,
                            angmag,
                            mnorm,
                        ).look,
                    )
                }
            },
        r is Some <==> track_camera_full(vessel_transform@, velocity_vector@, camera_behaviour@)
            is Some,
        r matches Some(w) ==> Some(w@) == track_camera_full(
            vessel_transform@,
            velocity_vector@,
            camera_behaviour@,
        ),
{
    let focus = match calculate_focussing_point(
        velocity_vector,
        camera_behaviour,
        vessel_transform,
    ) {
        Some(v) => v,
        None => {
            return None;
        },
    };
    let ghost (spw, amw) = choose|speed: Ratio, angmag: Ratio|
        {
            &&& #[trigger] sqrt_floor_p(
                v3_dot(velocity_vector@.linear, velocity_vector@.linear),
                speed,
            )
            &&& #[trigger] sqrt_floor_p(
                v3_dot(velocity_vector@.angular, velocity_vector@.angular),
                angmag,
            )
            &&& v3_eq(
                focus@,
                focussing_point_v(
                    vessel_transform@,
                    velocity_vector@,
                    camera_behaviour@,
                    speed,
                    angmag,
                ),
            )
        };
    let campos = match calculate_camera_position(vessel_transform, camera_behaviour, &focus) {
        Some(v) => v,
        None => {
            return None;
        },
    };
    let ghost mw = choose|mnorm: Ratio|
        #[trigger] camera_norm_ok(vessel_transform@, camera_behaviour@, focus@, mnorm) && v3_eq(
            campos@,
            camera_position_v(vessel_transform@, camera_behaviour@, focus@, mnorm),
        );
    let look = match focus.checked_sub(&campos) {
        Some(v) => v,
        None => {
            return None;
        },
    };
    let relpos = match campos.checked_sub(&vessel_transform.position) {
        Some(v) => v,
        None => {
            return None;
        },
    };
    let rotrel = match vessel_transform.orientation.checked_apply(&relpos) {
        Some(v) => v,
        None => {
            return None;
        },
    };
    let outpos = match vessel_transform.position.checked_add(&rotrel) {
        Some(v) => v,
        None => {
            return None;
        },
    };
    let outlook = match vessel_transform.orientation.checked_apply(&look) {
        Some(v) => v,
        None => {
            return None;
        },
    };
    proof {
        use_type_invariant(&vessel_transform.position.x);
        use_type_invariant(&vessel_transform.position.y);
        use_type_invariant(&vessel_transform.position.z);
        use_type_invariant(&vessel_transform.orientation.c);
        use_type_invariant(&vessel_transform.orientation.s);
        use_type_invariant(&velocity_vector.linear_velocity.x);
        use_type_invariant(&velocity_vector.linear_velocity.y);
        use_type_invariant(&velocity_vector.linear_velocity.z);
        use_type_invariant(&velocity_vector.angular_velocity.x);
        use_type_invariant(&velocity_vector.angular_velocity.y);
        use_type_invariant(&velocity_vector.angular_velocity.z);
        use_type_invariant(&camera_behaviour.focal_point.x);
        use_type_invariant(&camera_behaviour.focal_point.y);
        use_type_invariant(&camera_behaviour.focal_point.z);
        use_type_invariant(&camera_behaviour.offset);
        use_type_invariant(&camera_behaviour.velocity_offset);
        use_type_invariant(&focus.x);
        use_type_invariant(&focus.y);
        use_type_invariant(&focus.z);
        use_type_invariant(&campos.x);
        use_type_invariant(&campos.y);
        use_type_invariant(&campos.z);
        use_type_invariant(&look.x);
        use_type_invariant(&look.y);
        use_type_invariant(&look.z);
        use_type_invariant(&relpos.x);
        use_type_invariant(&relpos.y);
        use_type_invariant(&relpos.z);
        use_type_invariant(&rotrel.x);
        use_type_invariant(&rotrel.y);
        use_type_invariant(&rotrel.z);
        use_type_invariant(&outpos.x);
        use_type_invariant(&outpos.y);
        use_type_invariant(&outpos.z);
        use_type_invariant(&outlook.x);
        use_type_invariant(&outlook.y);
        use_type_invariant(&outlook.z);
        let posev = vessel_transform@;
        let velv = velocity_vector@;
        let behv = camera_behaviour@;
        let fv = focussing_point_v(posev, velv, behv, spw, amw);
        let cpv = camera_position_v(posev, behv, fv, mw);
        let cp_at_focus = camera_position_v(posev, behv, focus@, mw);
        let lookv = v3_sub(fv, cpv);
        // focus@ equals fv, campos@ equals the formula at focus@; carry the
        // formula over to fv.
        lemma_focussing_point_wf(posev, velv, behv, spw, amw);
        crate::vec3::lemma_v3_wf_ops(posev.position, behv.focal_point, int_v(1));
        let av = camera_anchor_v(posev, behv);
        crate::vec3::lemma_v3_add_congr(focus@, fv, av, av);
        crate::vec3::lemma_v3_wf_ops(focus@, av, int_v(1));
        crate::vec3::lemma_v3_wf_ops(fv, av, int_v(1));
        crate::rational::lemma_wf_div(behv.offset, mw);
        crate::vec3::lemma_v3_scale_congr(
            div_v(behv.offset, mw),
            div_v(behv.offset, mw),
            v3_sub(focus@, av),
            v3_sub(fv, av),
        );
        crate::vec3::lemma_v3_wf_ops(v3_sub(focus@, av), v3_sub(focus@, av), div_v(behv.offset, mw));
        crate::vec3::lemma_v3_wf_ops(v3_sub(fv, av), v3_sub(fv, av), div_v(behv.offset, mw));
        crate::vec3::lemma_v3_add_congr(
            av,
            av,
            v3_scale(div_v(behv.offset, mw), v3_sub(focus@, av)),
            v3_scale(div_v(behv.offset, mw), v3_sub(fv, av)),
        );
        crate::vec3::lemma_v3_wf_ops(av, v3_scale(div_v(behv.offset, mw), v3_sub(focus@, av)), int_v(1));
        crate::vec3::lemma_v3_eq_trans(campos@, cp_at_focus, cpv);
        // look direction
        crate::vec3::lemma_v3_wf_ops(v3_sub(fv, av), v3_sub(fv, av), div_v(behv.offset, mw));
        crate::vec3::lemma_v3_wf_ops(av, v3_scale(div_v(behv.offset, mw), v3_sub(fv, av)), int_v(1));
        crate::vec3::lemma_v3_add_congr(focus@, fv, campos@, cpv);
        crate::vec3::lemma_v3_wf_ops(focus@, campos@, int_v(1));
        crate::vec3::lemma_v3_eq_trans(look@, v3_sub(focus@, campos@), lookv);
        crate::vec3::lemma_v3_wf_ops(fv, cpv, int_v(1));
        // rotate the pose about the vessel
        crate::vec3::lemma_v3_add_congr(campos@, cpv, posev.position, posev.position);
        crate::vec3::lemma_v3_wf_ops(campos@, posev.position, int_v(1));
        crate::vec3::lemma_v3_eq_trans(
            relpos@,
            v3_sub(campos@, posev.position),
            v3_sub(cpv, posev.position),
        );
        crate::vec3::lemma_v3_wf_ops(cpv, posev.position, int_v(1));
        crate::rotation::lemma_rot_apply_congr(
            posev.orientation,
            posev.orientation,
            relpos@,
            v3_sub(cpv, posev.position),
        );
        crate::rotation::lemma_rot_apply_wf(posev.orientation, relpos@);
        crate::vec3::lemma_v3_eq_trans(
            rotrel@,
            rot_apply_v(posev.orientation, relpos@),
            rot_apply_v(posev.orientation, v3_sub(cpv, posev.position)),
        );
        crate::rotation::lemma_rot_apply_wf(posev.orientation, v3_sub(cpv, posev.position));
        crate::vec3::lemma_v3_add_congr(
            posev.position,
            posev.position,
            rotrel@,
            rot_apply_v(posev.orientation, v3_sub(cpv, posev.position)),
        );
        crate::vec3::lemma_v3_wf_ops(posev.position, rotrel@, int_v(1));
        crate::vec3::lemma_v3_eq_trans(
            outpos@,
            v3_add(posev.position, rotrel@),
            track_camera_v(posev, velv, behv, spw, amw, mw).position,
        );
        crate::rotation::lemma_rot_apply_congr(posev.orientation, posev.orientation, look@, lookv);
        crate::rotation::lemma_rot_apply_wf(posev.orientation, look@);
        crate::vec3::lemma_v3_eq_trans(
            outlook@,
            rot_apply_v(posev.orientation, look@),
            track_camera_v(posev, velv, behv, spw, amw, mw).look,
        );
        let w = CamPosev { position: outpos@, look: outlook@ };
        assert(sqrt_floor_p(v3_dot(velv.linear, velv.linear), spw) && sqrt_floor_p(
            v3_dot(velv.angular, velv.angular),
            amw,
        ));
        assert(camera_norm_ok(posev, behv, fv, mw)) by {
            crate::vec3::lemma_v3_dot_congr(
                v3_sub(focus@, av),
                v3_sub(fv, av),
                v3_sub(focus@, av),
                v3_sub(fv, av),
            );
            crate::rational::lemma_wf_add(int_v(0), int_v(0));
            lemma_sqrt_p_congr_x(
                v3_dot(v3_sub(focus@, av), v3_sub(focus@, av)),
                v3_dot(v3_sub(fv, av), v3_sub(fv, av)),
                mw,
            );
        }
    }
    Some(CameraPose { position: outpos, look: outlook })
}


proof fn nl_sub_strict(x1: Ratio, x2: Ratio, mid: Ratio)
    requires
        rv_wf(x1),
        rv_wf(x2),
        rv_wf(mid),
        rat_lt(x1, x2),
    ensures
        rat_lt(sub_v(x1, mid), sub_v(x2, mid)),
{
    assert((x1.n * mid.d) * (x2.d * mid.d) == (x1.n * x2.d) * (mid.d * mid.d)) by (nonlinear_arith);
    assert((x2.n * mid.d) * (x1.d * mid.d) == (x2.n * x1.d) * (mid.d * mid.d)) by (nonlinear_arith);
    assert((mid.n * x1.d) * (x2.d * mid.d) == (mid.n * x2.d) * (x1.d * mid.d)) by (nonlinear_arith);
    assert((x1.n * x2.d) * (mid.d * mid.d) < (x2.n * x1.d) * (mid.d * mid.d)) by (nonlinear_arith)
        requires
            x1.n * x2.d < x2.n * x1.d,
            mid.d > 0,
    ;
    assert((x1.n * mid.d - mid.n * x1.d) * (x2.d * mid.d) < (x2.n * mid.d - mid.n * x2.d) * (x1.d
        * mid.d)) by (nonlinear_arith)
        requires
            (x1.n * mid.d) * (x2.d * mid.d) == (x1.n * x2.d) * (mid.d * mid.d),
            (x2.n * mid.d) * (x1.d * mid.d) == (x2.n * x1.d) * (mid.d * mid.d),
            (mid.n * x1.d) * (x2.d * mid.d) == (mid.n * x2.d) * (x1.d * mid.d),
            (x1.n * x2.d) * (mid.d * mid.d) < (x2.n * x1.d) * (mid.d * mid.d),
    ;
}

proof fn nl_mul_pos_strict(k: Ratio, a: Ratio, b: Ratio)
    requires
        rv_wf(k),
        rv_wf(a),
        rv_wf(b),
        sign_v(k) == 1,
        rat_lt(a, b),
    ensures
        rat_lt(mul_v(k, a), mul_v(k, b)),
{
    assert((k.n * a.n) * (k.d * b.d) < (k.n * b.n) * (k.d * a.d)) by (nonlinear_arith)
        requires
            a.n * b.d < b.n * a.d,
            k.n > 0,
            k.d > 0,
    ;
}

proof fn nl_neg_strict(a: Ratio, b: Ratio)
    requires
        rat_lt(a, b),
    ensures
        rat_lt(neg_v(b), neg_v(a)),
{
    assert((-b.n) * a.d < (-a.n) * b.d) by (nonlinear_arith)
        requires
            a.n * b.d < b.n * a.d,
    ;
}

proof fn nl_one_plus_strict(a: Ratio, b: Ratio)
    requires
        rv_wf(a),
        rv_wf(b),
        rat_lt(a, b),
    ensures
        rat_lt(add_v(int_v(1), a), add_v(int_v(1), b)),
{
    assert((1 * a.d + a.n * 1) * (1 * b.d) < (1 * b.d + b.n * 1) * (1 * a.d)) by (nonlinear_arith)
        requires
            a.n * b.d < b.n * a.d,
            a.d > 0,
            b.d > 0,
    ;
}

proof fn nl_lt_le_trans(a: Ratio, b: Ratio, c: Ratio)
    requires
        rv_wf(a),
        rv_wf(b),
        rv_wf(c),
        rat_lt(a, b),
        rat_le(b, c),
    ensures
        rat_lt(a, c),
{
    assert(a.n * c.d < c.n * a.d) by (nonlinear_arith)
        requires
            a.n * b.d < b.n * a.d,
            b.n * c.d <= c.n * b.d,
            a.d > 0,
            b.d > 0,
            c.d > 0,
    ;
}

/// The exponential surrogate is strictly increasing.
pub proof fn lemma_exp_strictly_increasing(a: Ratio, b: Ratio)
    requires
        rv_wf(a),
        rv_wf(b),
        rat_lt(a, b),
    ensures
        rat_lt(exp_approx_v(a), exp_approx_v(b)),
{
    if a.n >= 0 && b.n >= 0 {
        nl_one_plus_strict(a, b);
    } else if a.n < 0 && b.n >= 0 {
        let sa = sub_v(int_v(1), a);
        assert(sa.n == 1 * a.d - a.n * 1);
        assert(sa.n > a.d);
        assert(rat_lt(inv_v(sa), int_v(1)));
        assert(rat_le(int_v(1), add_v(int_v(1), b))) by (nonlinear_arith)
            requires
                add_v(int_v(1), b).n == 1 * b.d + b.n * 1,
                add_v(int_v(1), b).d == 1 * b.d,
                b.n >= 0,
                b.d > 0,
        ;
        crate::rational::lemma_wf_add(int_v(1), b);
        nl_lt_le_trans(inv_v(sa), int_v(1), add_v(int_v(1), b));
    } else {
        if a.n >= 0 {
            assert(false) by (nonlinear_arith)
                requires
                    a.n >= 0,
                    b.n < 0,
                    a.d > 0,
                    b.d > 0,
                    a.n * b.d < b.n * a.d,
            ;
        }
        let sa = sub_v(int_v(1), a);
        let sb = sub_v(int_v(1), b);
        assert(sa.n == 1 * a.d - a.n * 1);
        assert(sb.n == 1 * b.d - b.n * 1);
        assert(sa.n > 0 && sb.n > 0);
        assert(rat_lt(sb, sa)) by (nonlinear_arith)
            requires
                a.n * b.d < b.n * a.d,
                sa.n == 1 * a.d - a.n * 1,
                sb.n == 1 * b.d - b.n * 1,
                sa.d == 1 * a.d,
                sb.d == 1 * b.d,
                a.d > 0,
                b.d > 0,
    ;
        assert(rat_lt(inv_v(sa), inv_v(sb))) by (nonlinear_arith)
            requires
                sb.n * sa.d < sa.n * sb.d,
                sa.n > 0,
                sb.n > 0,
                inv_v(sa) == (Ratio { n: sa.d, d: sa.n }),
                inv_v(sb) == (Ratio { n: sb.d, d: sb.n }),
        ;
    }
}

/// Monotonicity law: for positive steepness and a positive supremum the
/// logistic is strictly increasing.
pub proof fn lemma_logistic_strictly_increasing(
    x1: Ratio,
    x2: Ratio,
    sup: Ratio,
    k: Ratio,
    mid: Ratio,
)
    requires
        rv_wf(x1),
        rv_wf(x2),
        rv_wf(sup),
        rv_wf(k),
        rv_wf(mid),
        sign_v(sup) == 1,
        sign_v(k) == 1,
        rat_lt(x1, x2),
    ensures
        rat_lt(
            logistic_v(x1, sup, k, mid),
            logistic_v(x2, sup, k, mid),
        ),
{
    let y1 = neg_v(mul_v(k, sub_v(x1, mid)));
    let y2 = neg_v(mul_v(k, sub_v(x2, mid)));
    crate::rational::lemma_wf_add(x1, mid);
    crate::rational::lemma_wf_add(x2, mid);
    crate::rational::lemma_wf_add(k, sub_v(x1, mid));
    crate::rational::lemma_wf_add(k, sub_v(x2, mid));
    nl_sub_strict(x1, x2, mid);
    nl_mul_pos_strict(k, sub_v(x1, mid), sub_v(x2, mid));
    nl_neg_strict(mul_v(k, sub_v(x1, mid)), mul_v(k, sub_v(x2, mid)));
    lemma_exp_strictly_increasing(y2, y1);
    lemma_exp_pos(y1);
    lemma_exp_pos(y2);
    nl_one_plus_strict(exp_approx_v(y2), exp_approx_v(y1));
    let d1 = add_v(int_v(1), exp_approx_v(y1));
    let d2 = add_v(int_v(1), exp_approx_v(y2));
    lemma_logistic_den_pos(x1, k, mid);
    lemma_logistic_den_pos(x2, k, mid);
    assert(rat_lt(div_v(sup, d1), div_v(sup, d2))) by (nonlinear_arith)
        requires
            d2.n * d1.d < d1.n * d2.d,
            sup.n > 0,
            sup.d > 0,
            d1.n > 0,
            d2.n > 0,
            d1.d > 0,
            d2.d > 0,
            div_v(sup, d1) == (Ratio { n: sup.n * d1.d, d: sup.d * d1.n }),
            div_v(sup, d2) == (Ratio { n: sup.n * d2.d, d: sup.d * d2.n }),
    ;
}


} // verus!
