//! Yaw rotations about the world-up axis.
//!
//! Only yaw-axis turning is modelled, so an orientation is the pair
//! `(cos, sin)` of its yaw angle: the first column of the rotation matrix,
//! kept as exact rationals. Rotating a vector and composing two rotations
//! are then exact arithmetic. The one place an angle in radians must become
//! a rotation — the per-tick sweep along a turn circle — uses the rational
//! circle map `angle_rot_v`, the tangent-half-angle parametrisation with
//! `t = angle / 2`; it lands exactly on the unit circle and agrees with the
//! trigonometric rotation to third order in the angle.

use vstd::prelude::*;

use crate::rational::{
    add_v, div_v, fits, int_v, is_zero_v, mul_v, rat_eq, rv_wf, sub_v, Rat, Ratio,
};
use crate::vec3::{Vec3r, Vec3v};

verus! {

/// Mathematical value of a rotation: cosine and sine of the yaw angle.
pub ghost struct Rotv {
    pub c: Ratio,
    pub s: Ratio,
}

pub open spec fn rot_wf(r: Rotv) -> bool {
    rv_wf(r.c) && rv_wf(r.s)
}

pub open spec fn rot_eq(a: Rotv, b: Rotv) -> bool {
    rat_eq(a.c, b.c) && rat_eq(a.s, b.s)
}

pub open spec fn rot_identity_v() -> Rotv {
    Rotv { c: int_v(1), s: int_v(0) }
}

/// A rotation represents a rigid turn exactly when it lies on the unit
/// circle.
pub open spec fn rot_unit(r: Rotv) -> bool {
    rat_eq(add_v(mul_v(r.c, r.c), mul_v(r.s, r.s)), int_v(1))
}

/// Action of the yaw rotation on a vector:
/// `x' = c*x + s*z`, `y' = y`, `z' = c*z - s*x`.
pub open spec fn rot_apply_v(r: Rotv, v: Vec3v) -> Vec3v {
    Vec3v {
        x: add_v(mul_v(r.c, v.x), mul_v(r.s, v.z)),
        y: v.y,
        z: sub_v(mul_v(r.c, v.z), mul_v(r.s, v.x)),
    }
}

/// Composition of two yaw rotations, by the angle-sum formulas.
pub open spec fn rot_comp_v(a: Rotv, b: Rotv) -> Rotv {
    Rotv {
        c: sub_v(mul_v(a.c, b.c), mul_v(a.s, b.s)),
        s: add_v(mul_v(a.s, b.c), mul_v(a.c, b.s)),
    }
}

/// The rational circle map: the rotation standing for `angle` radians,
/// via the tangent-half-angle parametrisation with `t = angle / 2`.
pub open spec fn angle_rot_v(angle: Ratio) -> Rotv {
    let t = div_v(angle, int_v(2));
    let t2 = mul_v(t, t);
    let den = add_v(int_v(1), t2);
    Rotv { c: div_v(sub_v(int_v(1), t2), den), s: div_v(add_v(t, t), den) }
}

pub proof fn lemma_rot_eq_trans(a: Rotv, b: Rotv, c: Rotv)
    requires
        rot_wf(b),
        rot_eq(a, b),
        rot_eq(b, c),
    ensures
        rot_eq(a, c),
{
    crate::rational::lemma_eq_trans(a.c, b.c, c.c);
    crate::rational::lemma_eq_trans(a.s, b.s, c.s);
}

/// Congruence: rotating equal vectors by equal rotations gives equal
/// vectors.
pub proof fn lemma_rot_apply_congr(r: Rotv, r2: Rotv, v: Vec3v, v2: Vec3v)
    requires
        rot_wf(r),
        rot_wf(r2),
        crate::vec3::v3_wf(v),
        crate::vec3::v3_wf(v2),
        rot_eq(r, r2),
        crate::vec3::v3_eq(v, v2),
    ensures
        crate::vec3::v3_eq(rot_apply_v(r, v), rot_apply_v(r2, v2)),
{
    crate::rational::lemma_mul_congr(r.c, r2.c, v.x, v2.x);
    crate::rational::lemma_mul_congr(r.s, r2.s, v.z, v2.z);
    crate::rational::lemma_mul_congr(r.c, r2.c, v.z, v2.z);
    crate::rational::lemma_mul_congr(r.s, r2.s, v.x, v2.x);
    crate::rational::lemma_wf_add(r.c, v.x);
    crate::rational::lemma_wf_add(r2.c, v2.x);
    crate::rational::lemma_wf_add(r.s, v.z);
    crate::rational::lemma_wf_add(r2.s, v2.z);
    crate::rational::lemma_wf_add(r.c, v.z);
    crate::rational::lemma_wf_add(r2.c, v2.z);
    crate::rational::lemma_wf_add(r.s, v.x);
    crate::rational::lemma_wf_add(r2.s, v2.x);
    crate::rational::lemma_add_congr(mul_v(r.c, v.x), mul_v(r2.c, v2.x), mul_v(r.s, v.z), mul_v(r2.s, v2.z));
    crate::rational::lemma_sub_congr(mul_v(r.c, v.z), mul_v(r2.c, v2.z), mul_v(r.s, v.x), mul_v(r2.s, v2.x));
}

pub proof fn lemma_rot_apply_wf(r: Rotv, v: Vec3v)
    requires
        rot_wf(r),
        crate::vec3::v3_wf(v),
    ensures
        crate::vec3::v3_wf(rot_apply_v(r, v)),
{
    crate::rational::lemma_wf_add(r.c, v.x);
    crate::rational::lemma_wf_add(r.s, v.z);
    crate::rational::lemma_wf_add(r.c, v.z);
    crate::rational::lemma_wf_add(r.s, v.x);
    crate::rational::lemma_wf_add(mul_v(r.c, v.x), mul_v(r.s, v.z));
    crate::rational::lemma_wf_add(mul_v(r.c, v.z), mul_v(r.s, v.x));
}

pub proof fn lemma_rot_comp_wf(a: Rotv, b: Rotv)
    requires
        rot_wf(a),
        rot_wf(b),
    ensures
        rot_wf(rot_comp_v(a, b)),
{
    crate::rational::lemma_wf_add(a.c, b.c);
    crate::rational::lemma_wf_add(a.s, b.s);
    crate::rational::lemma_wf_add(a.s, b.c);
    crate::rational::lemma_wf_add(a.c, b.s);
    crate::rational::lemma_wf_add(mul_v(a.c, b.c), mul_v(a.s, b.s));
    crate::rational::lemma_wf_add(mul_v(a.s, b.c), mul_v(a.c, b.s));
}

/// Congruence of composition.
pub proof fn lemma_rot_comp_congr(a: Rotv, a2: Rotv, b: Rotv, b2: Rotv)
    requires
        rot_wf(a),
        rot_wf(a2),
        rot_wf(b),
        rot_wf(b2),
        rot_eq(a, a2),
        rot_eq(b, b2),
    ensures
        rot_eq(rot_comp_v(a, b), rot_comp_v(a2, b2)),
{
    crate::rational::lemma_mul_congr(a.c, a2.c, b.c, b2.c);
    crate::rational::lemma_mul_congr(a.s, a2.s, b.s, b2.s);
    crate::rational::lemma_mul_congr(a.s, a2.s, b.c, b2.c);
    crate::rational::lemma_mul_congr(a.c, a2.c, b.s, b2.s);
    crate::rational::lemma_wf_add(a.c, b.c);
    crate::rational::lemma_wf_add(a2.c, b2.c);
    crate::rational::lemma_wf_add(a.s, b.s);
    crate::rational::lemma_wf_add(a2.s, b2.s);
    crate::rational::lemma_wf_add(a.s, b.c);
    crate::rational::lemma_wf_add(a2.s, b2.c);
    crate::rational::lemma_wf_add(a.c, b.s);
    crate::rational::lemma_wf_add(a2.c, b2.s);
    crate::rational::lemma_sub_congr(mul_v(a.c, b.c), mul_v(a2.c, b2.c), mul_v(a.s, b.s), mul_v(a2.s, b2.s));
    crate::rational::lemma_add_congr(mul_v(a.s, b.c), mul_v(a2.s, b2.c), mul_v(a.c, b.s), mul_v(a2.c, b2.s));
}

/// The circle map is well defined: its denominator is positive, its
/// components well formed, and equal angles give equal rotations.
pub proof fn lemma_angle_rot_wf(angle: Ratio)
    requires
        rv_wf(angle),
    ensures
        rot_wf(angle_rot_v(angle)),
        !is_zero_v(add_v(int_v(1), mul_v(div_v(angle, int_v(2)), div_v(angle, int_v(2))))),
{
    let t = div_v(angle, int_v(2));
    let t2 = mul_v(t, t);
    let den = add_v(int_v(1), t2);
    crate::rational::lemma_wf_div(angle, int_v(2));
    crate::rational::lemma_wf_add(t, t);
    crate::rational::lemma_wf_add(int_v(1), t2);
    assert(t2.n >= 0) by (nonlinear_arith)
        requires
            t2.n == t.n * t.n,
    ;
    assert(den.n > 0);
    crate::rational::lemma_wf_div(sub_v(int_v(1), t2), den);
    crate::rational::lemma_wf_div(add_v(t, t), den);
}

/// Congruence of the circle map.
pub proof fn lemma_angle_rot_congr(a: Ratio, a2: Ratio)
    requires
        rv_wf(a),
        rv_wf(a2),
        rat_eq(a, a2),
    ensures
        rot_eq(angle_rot_v(a), angle_rot_v(a2)),
{
    let t = div_v(a, int_v(2));
    let t2 = mul_v(t, t);
    let den = add_v(int_v(1), t2);
    let u = div_v(a2, int_v(2));
    let u2 = mul_v(u, u);
    let den2 = add_v(int_v(1), u2);
    crate::rational::lemma_wf_div(a, int_v(2));
    crate::rational::lemma_wf_div(a2, int_v(2));
    crate::rational::lemma_div_congr(a, a2, int_v(2), int_v(2));
    crate::rational::lemma_mul_congr(t, u, t, u);
    crate::rational::lemma_wf_add(t, t);
    crate::rational::lemma_wf_add(u, u);
    crate::rational::lemma_add_congr(int_v(1), int_v(1), t2, u2);
    crate::rational::lemma_sub_congr(int_v(1), int_v(1), t2, u2);
    crate::rational::lemma_add_congr(t, u, t, u);
    crate::rational::lemma_wf_add(int_v(1), t2);
    crate::rational::lemma_wf_add(int_v(1), u2);
    lemma_angle_rot_wf(a);
    lemma_angle_rot_wf(a2);
    crate::rational::lemma_div_congr(sub_v(int_v(1), t2), sub_v(int_v(1), u2), den, den2);
    crate::rational::lemma_div_congr(add_v(t, t), add_v(u, u), den, den2);
}


/// Unitness respects value equality.
pub proof fn lemma_rot_unit_congr(a: Rotv, b: Rotv)
    requires
        rot_wf(a),
        rot_wf(b),
        rot_eq(a, b),
    ensures
        rot_unit(a) == rot_unit(b),
{
    crate::rational::lemma_mul_congr(a.c, b.c, a.c, b.c);
    crate::rational::lemma_mul_congr(a.s, b.s, a.s, b.s);
    crate::rational::lemma_wf_add(a.c, a.c);
    crate::rational::lemma_wf_add(b.c, b.c);
    crate::rational::lemma_wf_add(a.s, a.s);
    crate::rational::lemma_wf_add(b.s, b.s);
    crate::rational::lemma_add_congr(mul_v(a.c, a.c), mul_v(b.c, b.c), mul_v(a.s, a.s), mul_v(b.s, b.s));
    crate::rational::lemma_wf_add(mul_v(a.c, a.c), mul_v(a.s, a.s));
    crate::rational::lemma_wf_add(mul_v(b.c, b.c), mul_v(b.s, b.s));
    let na = add_v(mul_v(a.c, a.c), mul_v(a.s, a.s));
    let nb = add_v(mul_v(b.c, b.c), mul_v(b.s, b.s));
    if rot_unit(a) {
        crate::rational::lemma_eq_sym(na, nb);
        crate::rational::lemma_eq_trans(nb, na, int_v(1));
    }
    if rot_unit(b) {
        crate::rational::lemma_eq_trans(na, nb, int_v(1));
    }
}


proof fn nl_brahmagupta(pa: int, pb: int, pc: int, pd: int)
    ensures
        (pa * pc - pb * pd) * (pa * pc - pb * pd) + (pb * pc + pa * pd) * (pb * pc + pa * pd) == (
        pa * pa + pb * pb) * (pc * pc + pd * pd),
{
    let ac = pa * pc;
    let bd = pb * pd;
    let bc = pb * pc;
    let ad = pa * pd;
    assert((ac - bd) * (ac - bd) == ac * ac - 2 * (ac * bd) + bd * bd) by (nonlinear_arith);
    assert((bc + ad) * (bc + ad) == bc * bc + 2 * (bc * ad) + ad * ad) by (nonlinear_arith);
    assert(ac * bd == bc * ad) by (nonlinear_arith)
        requires
            ac == pa * pc,
            bd == pb * pd,
            bc == pb * pc,
            ad == pa * pd,
    ;
    assert(ac * ac == (pa * pa) * (pc * pc)) by (nonlinear_arith)
        requires
            ac == pa * pc,
    ;
    assert(bd * bd == (pb * pb) * (pd * pd)) by (nonlinear_arith)
        requires
            bd == pb * pd,
    ;
    assert(bc * bc == (pb * pb) * (pc * pc)) by (nonlinear_arith)
        requires
            bc == pb * pc,
    ;
    assert(ad * ad == (pa * pa) * (pd * pd)) by (nonlinear_arith)
        requires
            ad == pa * pd,
    ;
    assert((pa * pa + pb * pb) * (pc * pc + pd * pd) == (pa * pa) * (pc * pc) + (pa * pa) * (pd
        * pd) + (pb * pb) * (pc * pc) + (pb * pb) * (pd * pd)) by (nonlinear_arith);
}

/// Composing two unit rotations gives a unit rotation: the
/// Brahmagupta–Fibonacci identity over the rational model.
pub proof fn lemma_rot_comp_unit(a: Rotv, b: Rotv)
    requires
        rot_wf(a),
        rot_wf(b),
        rot_unit(a),
        rot_unit(b),
    ensures
        rot_unit(rot_comp_v(a, b)),
{
    let acn = a.c.n;
    let acd = a.c.d;
    let asn = a.s.n;
    let asd = a.s.d;
    let bcn = b.c.n;
    let bcd = b.c.d;
    let bsn = b.s.n;
    let bsd = b.s.d;
    let pa = acn * asd;
    let pb = asn * acd;
    let da = acd * asd;
    let pc = bcn * bsd;
    let pd = bsn * bcd;
    let db = bcd * bsd;
    assert(pa * pa + pb * pb == da * da) by (nonlinear_arith)
        requires
            ((acn * acn) * (asd * asd) + (asn * asn) * (acd * acd)) * 1 == 1 * ((acd * acd) * (asd
                * asd)),
            pa == acn * asd,
            pb == asn * acd,
            da == acd * asd,
    ;
    assert(pc * pc + pd * pd == db * db) by (nonlinear_arith)
        requires
            ((bcn * bcn) * (bsd * bsd) + (bsn * bsn) * (bcd * bcd)) * 1 == 1 * ((bcd * bcd) * (bsd
                * bsd)),
            pc == bcn * bsd,
            pd == bsn * bcd,
            db == bcd * bsd,
    ;
    let cp = rot_comp_v(a, b);
    let cn = cp.c.n;
    let cd = cp.c.d;
    let sn = cp.s.n;
    let sd = cp.s.d;
    assert((acn * bcn) * (asd * bsd) == pa * pc) by (nonlinear_arith)
        requires
            pa == acn * asd,
            pc == bcn * bsd,
    ;
    assert((asn * bsn) * (acd * bcd) == pb * pd) by (nonlinear_arith)
        requires
            pb == asn * acd,
            pd == bsn * bcd,
    ;
    assert((asn * bcn) * (acd * bsd) == pb * pc) by (nonlinear_arith)
        requires
            pb == asn * acd,
            pc == bcn * bsd,
    ;
    assert((acn * bsn) * (asd * bcd) == pa * pd) by (nonlinear_arith)
        requires
            pa == acn * asd,
            pd == bsn * bcd,
    ;
    assert(cn == pa * pc - pb * pd);
    assert(sn == pb * pc + pa * pd);
    assert(cd == da * db) by (nonlinear_arith)
        requires
            cd == (acd * bcd) * (asd * bsd),
            da == acd * asd,
            db == bcd * bsd,
    ;
    assert(sd == da * db) by (nonlinear_arith)
        requires
            sd == (asd * bcd) * (acd * bsd),
            da == acd * asd,
            db == bcd * bsd,
    ;
    nl_brahmagupta(pa, pb, pc, pd);
    assert(cn * cn + sn * sn == (da * db) * (da * db)) by (nonlinear_arith)
        requires
            cn == pa * pc - pb * pd,
            sn == pb * pc + pa * pd,
            (pa * pc - pb * pd) * (pa * pc - pb * pd) + (pb * pc + pa * pd) * (pb * pc + pa * pd)
                == (pa * pa + pb * pb) * (pc * pc + pd * pd),
            pa * pa + pb * pb == da * da,
            pc * pc + pd * pd == db * db,
    ;
    assert(((cn * cn) * (sd * sd) + (sn * sn) * (cd * cd)) * 1 == 1 * ((cd * cd) * (sd * sd)))
        by (nonlinear_arith)
        requires
            cn * cn + sn * sn == (da * db) * (da * db),
            cd == da * db,
            sd == da * db,
    ;
}

/// The rational circle map lands exactly on the unit circle: the
/// Weierstrass identity `(1 - t^2)^2 + (2t)^2 == (1 + t^2)^2` over the
/// rational model.
pub proof fn lemma_angle_rot_unit(angle: Ratio)
    requires
        rv_wf(angle),
    ensures
        rot_unit(angle_rot_v(angle)),
{
    let t = div_v(angle, int_v(2));
    let t2 = mul_v(t, t);
    let den = add_v(int_v(1), t2);
    let num_c = sub_v(int_v(1), t2);
    let num_s = add_v(t, t);
    crate::rational::lemma_wf_div(angle, int_v(2));
    crate::rational::lemma_wf_add(t, t);
    crate::rational::lemma_wf_add(int_v(1), t2);
    assert(t2.n >= 0) by (nonlinear_arith)
        requires
            t2.n == t.n * t.n,
    ;
    assert(den.n > 0);
    let tn = t.n;
    let td = t.d;
    let rot = angle_rot_v(angle);
    let cn = rot.c.n;
    let cd = rot.c.d;
    let sn = rot.s.n;
    let sd = rot.s.d;
    let p = tn * tn;
    let q = td * td;
    let dd = q * (q + p);
    assert(cn == (q - p) * q && cd == dd) by (nonlinear_arith)
        requires
            cn == (1 * (td * td) - (tn * tn) * 1) * (1 * (td * td)),
            cd == (1 * (td * td)) * (1 * (td * td) + (tn * tn) * 1),
            p == tn * tn,
            q == td * td,
            dd == q * (q + p),
    ;
    assert(sn == ((tn * td) + (tn * td)) * q && sd == dd) by (nonlinear_arith)
        requires
            sn == (tn * td + tn * td) * (1 * (td * td)),
            sd == (1 * (td * td)) * (1 * (td * td) + (tn * tn) * 1),
            q == td * td,
            dd == q * (q + p),
            p == tn * tn,
    ;
    assert(((q - p) * (q - p)) + ((tn * td + tn * td) * (tn * td + tn * td)) == (q + p) * (q + p))
        by (nonlinear_arith)
        requires
            p == tn * tn,
            q == td * td,
    ;
    assert(cn * cn + sn * sn == dd * dd) by (nonlinear_arith)
        requires
            cn == (q - p) * q,
            sn == (tn * td + tn * td) * q,
            ((q - p) * (q - p)) + ((tn * td + tn * td) * (tn * td + tn * td)) == (q + p) * (q + p),
            dd == q * (q + p),
    ;
    assert(((cn * cn) * (sd * sd) + (sn * sn) * (cd * cd)) * 1 == 1 * ((cd * cd) * (sd * sd)))
        by (nonlinear_arith)
        requires
            cn * cn + sn * sn == dd * dd,
            cd == dd,
            sd == dd,
    ;
}

/// An angle of zero maps to the identity rotation.
pub proof fn lemma_angle_rot_zero(angle: Ratio)
    requires
        rv_wf(angle),
        is_zero_v(angle),
    ensures
        rot_eq(angle_rot_v(angle), rot_identity_v()),
{
    let t = div_v(angle, int_v(2));
    let t2 = mul_v(t, t);
    let den = add_v(int_v(1), t2);
    let num_c = sub_v(int_v(1), t2);
    let num_s = add_v(t, t);
    crate::rational::lemma_wf_div(angle, int_v(2));
    crate::rational::lemma_wf_add(t, t);
    crate::rational::lemma_wf_add(int_v(1), t2);
    assert(t.n == angle.n * 1);
    assert(t.n == 0) by (nonlinear_arith)
        requires
            t.n == angle.n * 1,
            angle.n == 0,
    ;
    assert(t2.n == 0) by (nonlinear_arith)
        requires
            t2.n == t.n * t.n,
            t.n == 0,
    ;
    assert(den.n == t2.d) by (nonlinear_arith)
        requires
            den.n == 1 * t2.d + t2.n * 1,
            t2.n == 0,
    ;
    assert(den.d == 1 * t2.d);
    assert(num_c.n == t2.d) by (nonlinear_arith)
        requires
            num_c.n == 1 * t2.d - t2.n * 1,
            t2.n == 0,
    ;
    assert(num_c.d == 1 * t2.d);
    let c = angle_rot_v(angle).c;
    assert(c == div_v(num_c, den));
    assert(c.n * 1 == 1 * c.d) by (nonlinear_arith)
        requires
            c.n == num_c.n * den.d,
            c.d == num_c.d * den.n,
            num_c.n == t2.d,
            num_c.d == t2.d,
            den.n == t2.d,
            den.d == t2.d,
    ;
    let s = angle_rot_v(angle).s;
    assert(num_s.n == 0) by (nonlinear_arith)
        requires
            num_s.n == t.n * t.d + t.n * t.d,
            t.n == 0,
    ;
    assert(s.n == 0) by (nonlinear_arith)
        requires
            s.n == num_s.n * den.d,
            num_s.n == 0,
    ;
    assert(s.n * 1 == 0 * s.d) by (nonlinear_arith)
        requires
            s.n == 0,
    ;
}


// ---------------------------------------------------------------------------
// Exact mirrors of the executable rotation arithmetic.
// ---------------------------------------------------------------------------

/// Exactly the rotated vector `Rot::checked_apply` returns.
pub open spec fn rot_apply_full(r: Rotv, v: Vec3v) -> Option<Vec3v> {
    match crate::rational::mul_full(r.c, v.x) {
        None => None,
        Some(cx) => match crate::rational::mul_full(r.s, v.z) {
            None => None,
            Some(sz) => match crate::rational::mul_full(r.c, v.z) {
                None => None,
                Some(cz) => match crate::rational::mul_full(r.s, v.x) {
                    None => None,
                    Some(sx) => match crate::rational::add_full(cx, sz) {
                        None => None,
                        Some(nx) => match crate::rational::sub_full(cz, sx) {
                            None => None,
                            Some(nz) => Some(Vec3v { x: nx, y: v.y, z: nz }),
                        },
                    },
                },
            },
        },
    }
}

/// Exactly the composition `Rot::checked_compose` returns.
pub open spec fn rot_comp_full(a: Rotv, b: Rotv) -> Option<Rotv> {
    match crate::rational::mul_full(a.c, b.c) {
        None => None,
        Some(cc) => match crate::rational::mul_full(a.s, b.s) {
            None => None,
            Some(ss) => match crate::rational::mul_full(a.s, b.c) {
                None => None,
                Some(sc) => match crate::rational::mul_full(a.c, b.s) {
                    None => None,
                    Some(cs) => match crate::rational::sub_full(cc, ss) {
                        None => None,
                        Some(nc) => match crate::rational::add_full(sc, cs) {
                            None => None,
                            Some(ns) => Some(Rotv { c: nc, s: ns }),
                        },
                    },
                },
            },
        },
    }
}

/// Exactly the rotation `Rot::checked_from_angle` returns.
pub open spec fn from_angle_full(angle: Ratio) -> Option<Rotv> {
    match crate::rational::div_full(angle, int_v(2)) {
        None => None,
        Some(t) => match crate::rational::mul_full(t, t) {
            None => None,
            Some(t2) => match crate::rational::add_full(int_v(1), t2) {
                None => None,
                Some(den) => match crate::rational::sub_full(int_v(1), t2) {
                    None => None,
                    Some(num_c) => match crate::rational::add_full(t, t) {
                        None => None,
                        Some(num_s) => if is_zero_v(den) {
                            None
                        } else {
                            match crate::rational::div_full(num_c, den) {
                                None => None,
                                Some(nc) => match crate::rational::div_full(num_s, den) {
                                    None => None,
                                    Some(ns) => Some(Rotv { c: nc, s: ns }),
                                },
                            }
                        },
                    },
                },
            },
        },
    }
}


/// Exactly the answer `Rot::is_unit` returns: `None` when the squares or
/// their sum leave the representable range, else whether the sum is one.
pub open spec fn unit_check_full(r: Rotv) -> Option<bool> {
    match crate::rational::mul_full(r.c, r.c) {
        None => None,
        Some(cc) => match crate::rational::mul_full(r.s, r.s) {
            None => None,
            Some(ss) => match crate::rational::add_full(cc, ss) {
                None => None,
                Some(sum) => Some(rat_eq(sum, int_v(1))),
            },
        },
    }
}

/// An exact yaw rotation, as the cosine and sine of its angle.
#[derive(Clone, Copy, Debug)]
pub struct Rot {
    pub c: Rat,
    pub s: Rat,
}

impl View for Rot {
    type V = Rotv;

    open spec fn view(&self) -> Rotv {
        Rotv { c: self.c@, s: self.s@ }
    }
}

impl Rot {
    pub fn new(c: Rat, s: Rat) -> (r: Rot)
        ensures
            r@ == (Rotv { c: c@, s: s@ }),
    {
        Rot { c, s }
    }

    pub fn identity() -> (r: Rot)
        ensures
            r@ == rot_identity_v(),
    {
        Rot { c: Rat::one(), s: Rat::zero() }
    }

    /// The unit-circle check: `true` exactly when the squares and their
    /// sum are representable and that sum is one. `true` is returned only
    /// for rotations on the unit circle; when squaring overflows the
    /// component bounds the check conservatively answers `false`.
    pub fn is_unit(&self) -> (r: bool)
        ensures
            r ==> rot_unit(self@),
            r == (unit_check_full(self@) == Some(true)),
    {
        proof {
            use_type_invariant(&self.c);
            use_type_invariant(&self.s);
        }
        let cc = match self.c.checked_mul(&self.c) {
            Some(v) => v,
            None => {
                return false;
            },
        };
        let ss = match self.s.checked_mul(&self.s) {
            Some(v) => v,
            None => {
                return false;
            },
        };
        let sum = match cc.checked_add(&ss) {
            Some(v) => v,
            None => {
                return false;
            },
        };
        proof {
            use_type_invariant(&cc);
            use_type_invariant(&ss);
            use_type_invariant(&sum);
            crate::rational::lemma_wf_add(self.c@, self.c@);
            crate::rational::lemma_wf_add(self.s@, self.s@);
            crate::rational::lemma_add_congr(cc@, mul_v(self.c@, self.c@), ss@, mul_v(self.s@, self.s@));
            crate::rational::lemma_wf_add(cc@, ss@);
            crate::rational::lemma_wf_add(mul_v(self.c@, self.c@), mul_v(self.s@, self.s@));
            crate::rational::lemma_eq_trans(
                sum@,
                add_v(cc@, ss@),
                add_v(mul_v(self.c@, self.c@), mul_v(self.s@, self.s@)),
            );
        }
        let one = Rat::one();
        let r = sum.eq_val(&one);
        proof {
            if r {
                crate::rational::lemma_eq_sym(sum@, add_v(mul_v(self.c@, self.c@), mul_v(self.s@, self.s@)));
                crate::rational::lemma_eq_trans(
                    add_v(mul_v(self.c@, self.c@), mul_v(self.s@, self.s@)),
                    sum@,
                    int_v(1),
                );
            }
        }
        r
    }

    /// Rotates a vector by this yaw rotation.
    pub fn checked_apply(&self, v: &Vec3r) -> (r: Option<Vec3r>)
        ensures
            r matches Some(w) ==> crate::vec3::v3_eq(w@, rot_apply_v(self@, v@)),
            r is Some <==> rot_apply_full(self@, v@) is Some,
            r matches Some(w) ==> Some(w@) == rot_apply_full(self@, v@),
    {
        proof {
            use_type_invariant(&self.c);
            use_type_invariant(&self.s);
            use_type_invariant(&v.x);
            use_type_invariant(&v.z);
        }
        let cx = match self.c.checked_mul(&v.x) {
            Some(w) => w,
            None => {
                return None;
            },
        };
        let sz = match self.s.checked_mul(&v.z) {
            Some(w) => w,
            None => {
                return None;
            },
        };
        let cz = match self.c.checked_mul(&v.z) {
            Some(w) => w,
            None => {
                return None;
            },
        };
        let sx = match self.s.checked_mul(&v.x) {
            Some(w) => w,
            None => {
                return None;
            },
        };
        let nx = match cx.checked_add(&sz) {
            Some(w) => w,
            None => {
                return None;
            },
        };
        let nz = match cz.checked_sub(&sx) {
            Some(w) => w,
            None => {
                return None;
            },
        };
        proof {
            use_type_invariant(&cx);
            use_type_invariant(&sz);
            use_type_invariant(&cz);
            use_type_invariant(&sx);
            use_type_invariant(&nx);
            use_type_invariant(&nz);
            crate::rational::lemma_wf_add(self.c@, v.x@);
            crate::rational::lemma_wf_add(self.s@, v.z@);
            crate::rational::lemma_wf_add(self.c@, v.z@);
            crate::rational::lemma_wf_add(self.s@, v.x@);
            crate::rational::lemma_add_congr(cx@, mul_v(self.c@, v.x@), sz@, mul_v(self.s@, v.z@));
            crate::rational::lemma_wf_add(cx@, sz@);
            crate::rational::lemma_wf_add(mul_v(self.c@, v.x@), mul_v(self.s@, v.z@));
            crate::rational::lemma_eq_trans(
                nx@,
                add_v(cx@, sz@),
                add_v(mul_v(self.c@, v.x@), mul_v(self.s@, v.z@)),
            );
            crate::rational::lemma_sub_congr(cz@, mul_v(self.c@, v.z@), sx@, mul_v(self.s@, v.x@));
            crate::rational::lemma_wf_add(cz@, sx@);
            crate::rational::lemma_wf_add(mul_v(self.c@, v.z@), mul_v(self.s@, v.x@));
            crate::rational::lemma_eq_trans(
                nz@,
                sub_v(cz@, sx@),
                sub_v(mul_v(self.c@, v.z@), mul_v(self.s@, v.x@)),
            );
        }
        Some(Vec3r { x: nx, y: v.y, z: nz })
    }

    /// Composes two yaw rotations: the result turns by this rotation's
    /// angle plus the other's.
    pub fn checked_compose(&self, other: &Rot) -> (r: Option<Rot>)
        ensures
            r matches Some(w) ==> rot_eq(w@, rot_comp_v(self@, other@)),
            r is Some <==> rot_comp_full(self@, other@) is Some,
            r matches Some(w) ==> Some(w@) == rot_comp_full(self@, other@),
    {
        proof {
            use_type_invariant(&self.c);
            use_type_invariant(&self.s);
            use_type_invariant(&other.c);
            use_type_invariant(&other.s);
        }
        let cc = match self.c.checked_mul(&other.c) {
            Some(w) => w,
            None => {
                return None;
            },
        };
        let ss = match self.s.checked_mul(&other.s) {
            Some(w) => w,
            None => {
                return None;
            },
        };
        let sc = match self.s.checked_mul(&other.c) {
            Some(w) => w,
            None => {
                return None;
            },
        };
        let cs = match self.c.checked_mul(&other.s) {
            Some(w) => w,
            None => {
                return None;
            },
        };
        let nc = match cc.checked_sub(&ss) {
            Some(w) => w,
            None => {
                return None;
            },
        };
        let ns = match sc.checked_add(&cs) {
            Some(w) => w,
            None => {
                return None;
            },
        };
        proof {
            use_type_invariant(&cc);
            use_type_invariant(&ss);
            use_type_invariant(&sc);
            use_type_invariant(&cs);
            use_type_invariant(&nc);
            use_type_invariant(&ns);
            crate::rational::lemma_wf_add(self.c@, other.c@);
            crate::rational::lemma_wf_add(self.s@, other.s@);
            crate::rational::lemma_wf_add(self.s@, other.c@);
            crate::rational::lemma_wf_add(self.c@, other.s@);
            crate::rational::lemma_sub_congr(cc@, mul_v(self.c@, other.c@), ss@, mul_v(self.s@, other.s@));
            crate::rational::lemma_wf_add(cc@, ss@);
            crate::rational::lemma_wf_add(mul_v(self.c@, other.c@), mul_v(self.s@, other.s@));
            crate::rational::lemma_eq_trans(
                nc@,
                sub_v(cc@, ss@),
                sub_v(mul_v(self.c@, other.c@), mul_v(self.s@, other.s@)),
            );
            crate::rational::lemma_add_congr(sc@, mul_v(self.s@, other.c@), cs@, mul_v(self.c@, other.s@));
            crate::rational::lemma_wf_add(sc@, cs@);
            crate::rational::lemma_wf_add(mul_v(self.s@, other.c@), mul_v(self.c@, other.s@));
            crate::rational::lemma_eq_trans(
                ns@,
                add_v(sc@, cs@),
                add_v(mul_v(self.s@, other.c@), mul_v(self.c@, other.s@)),
            );
        }
        Some(Rot { c: nc, s: ns })
    }

    /// The rotation standing for `angle` radians, by the rational circle
    /// map. `None` only when the arithmetic leaves the component bounds.
    pub fn checked_from_angle(angle: &Rat) -> (r: Option<Rot>)
        ensures
            r matches Some(w) ==> rot_eq(w@, angle_rot_v(angle@)),
            r is Some <==> from_angle_full(angle@) is Some,
            r matches Some(w) ==> Some(w@) == from_angle_full(angle@),
    {
        proof {
            use_type_invariant(angle);
        }
        let two = Rat::from_int(2);
        let t = match angle.checked_div(&two) {
            Some(w) => w,
            None => {
                return None;
            },
        };
        let t2 = match t.checked_mul(&t) {
            Some(w) => w,
            None => {
                return None;
            },
        };
        let one = Rat::one();
        let den = match one.checked_add(&t2) {
            Some(w) => w,
            None => {
                return None;
            },
        };
        let num_c = match one.checked_sub(&t2) {
            Some(w) => w,
            None => {
                return None;
            },
        };
        let num_s = match t.checked_add(&t) {
            Some(w) => w,
            None => {
                return None;
            },
        };
        if den.is_zero() {
            return None;
        }
        let nc = match num_c.checked_div(&den) {
            Some(w) => w,
            None => {
                return None;
            },
        };
        let ns = match num_s.checked_div(&den) {
            Some(w) => w,
            None => {
                return None;
            },
        };
        proof {
            use_type_invariant(&t);
            use_type_invariant(&t2);
            use_type_invariant(&den);
            use_type_invariant(&num_c);
            use_type_invariant(&num_s);
            use_type_invariant(&nc);
            use_type_invariant(&ns);
            let tv = div_v(angle@, int_v(2));
            let t2v = mul_v(tv, tv);
            let denv = add_v(int_v(1), t2v);
            let num_cv = sub_v(int_v(1), t2v);
            let num_sv = add_v(tv, tv);
            crate::rational::lemma_wf_div(angle@, int_v(2));
            crate::rational::lemma_mul_congr(t@, tv, t@, tv);
            crate::rational::lemma_wf_add(tv, tv);
            crate::rational::lemma_wf_add(t@, t@);
            crate::rational::lemma_eq_trans(t2@, mul_v(t@, t@), t2v);
            crate::rational::lemma_add_congr(int_v(1), int_v(1), t2@, t2v);
            crate::rational::lemma_wf_add(int_v(1), t2v);
            crate::rational::lemma_wf_add(int_v(1), t2@);
            crate::rational::lemma_eq_trans(den@, add_v(int_v(1), t2@), denv);
            crate::rational::lemma_sub_congr(int_v(1), int_v(1), t2@, t2v);
            crate::rational::lemma_eq_trans(num_c@, sub_v(int_v(1), t2@), num_cv);
            crate::rational::lemma_add_congr(t@, tv, t@, tv);
            crate::rational::lemma_eq_trans(num_s@, add_v(t@, t@), num_sv);
            crate::rational::lemma_sign_congr(den@, denv);
            crate::rational::lemma_div_congr(num_c@, num_cv, den@, denv);
            crate::rational::lemma_wf_div(num_c@, den@);
            crate::rational::lemma_eq_trans(nc@, div_v(num_c@, den@), div_v(num_cv, denv));
            crate::rational::lemma_div_congr(num_s@, num_sv, den@, denv);
            crate::rational::lemma_wf_div(num_s@, den@);
            crate::rational::lemma_eq_trans(ns@, div_v(num_s@, den@), div_v(num_sv, denv));
        }
        Some(Rot { c: nc, s: ns })
    }
}

} // verus!
