//! Three-component vectors of exact rationals.
//!
//! Positions, velocities and axis directions are `Vec3r` values. The ghost
//! counterpart `Vec3v` carries one `Ratio` per component, and the vector
//! operations are defined componentwise from the rational model.

use vstd::prelude::*;

use crate::rational::{
    abs_v, add_v, div_v, fits, int_v, is_zero_v, mul_v, neg_v, rat_eq, rv_wf, sub_v, Rat, Ratio,
};

verus! {

/// Mathematical value of a vector: one ratio per component.
pub ghost struct Vec3v {
    pub x: Ratio,
    pub y: Ratio,
    pub z: Ratio,
}

pub open spec fn v3_wf(v: Vec3v) -> bool {
    rv_wf(v.x) && rv_wf(v.y) && rv_wf(v.z)
}

/// Componentwise value equality.
pub open spec fn v3_eq(a: Vec3v, b: Vec3v) -> bool {
    rat_eq(a.x, b.x) && rat_eq(a.y, b.y) && rat_eq(a.z, b.z)
}

pub open spec fn v3_add(a: Vec3v, b: Vec3v) -> Vec3v {
    Vec3v { x: add_v(a.x, b.x), y: add_v(a.y, b.y), z: add_v(a.z, b.z) }
}

pub open spec fn v3_sub(a: Vec3v, b: Vec3v) -> Vec3v {
    Vec3v { x: sub_v(a.x, b.x), y: sub_v(a.y, b.y), z: sub_v(a.z, b.z) }
}

pub open spec fn v3_scale(k: Ratio, v: Vec3v) -> Vec3v {
    Vec3v { x: mul_v(k, v.x), y: mul_v(k, v.y), z: mul_v(k, v.z) }
}

pub open spec fn v3_neg(v: Vec3v) -> Vec3v {
    Vec3v { x: neg_v(v.x), y: neg_v(v.y), z: neg_v(v.z) }
}

pub open spec fn v3_zero() -> Vec3v {
    Vec3v { x: int_v(0), y: int_v(0), z: int_v(0) }
}

/// Dot product, with the sums associated left to right.
pub open spec fn v3_dot(a: Vec3v, b: Vec3v) -> Ratio {
    add_v(add_v(mul_v(a.x, b.x), mul_v(a.y, b.y)), mul_v(a.z, b.z))
}

pub proof fn lemma_v3_wf_ops(a: Vec3v, b: Vec3v, k: Ratio)
    requires
        v3_wf(a),
        v3_wf(b),
        rv_wf(k),
    ensures
        v3_wf(v3_add(a, b)),
        v3_wf(v3_sub(a, b)),
        v3_wf(v3_scale(k, a)),
        v3_wf(v3_neg(a)),
        rv_wf(v3_dot(a, b)),
{
    crate::rational::lemma_wf_add(a.x, b.x);
    crate::rational::lemma_wf_add(a.y, b.y);
    crate::rational::lemma_wf_add(a.z, b.z);
    crate::rational::lemma_wf_add(k, a.x);
    crate::rational::lemma_wf_add(k, a.y);
    crate::rational::lemma_wf_add(k, a.z);
    crate::rational::lemma_wf_add(mul_v(a.x, b.x), mul_v(a.y, b.y));
    crate::rational::lemma_wf_add(
        add_v(mul_v(a.x, b.x), mul_v(a.y, b.y)),
        mul_v(a.z, b.z),
    );
}

/// Congruence: equal vectors give equal results under every operation.
pub proof fn lemma_v3_add_congr(a: Vec3v, a2: Vec3v, b: Vec3v, b2: Vec3v)
    requires
        v3_wf(a),
        v3_wf(a2),
        v3_wf(b),
        v3_wf(b2),
        v3_eq(a, a2),
        v3_eq(b, b2),
    ensures
        v3_eq(v3_add(a, b), v3_add(a2, b2)),
        v3_eq(v3_sub(a, b), v3_sub(a2, b2)),
{
    crate::rational::lemma_add_congr(a.x, a2.x, b.x, b2.x);
    crate::rational::lemma_add_congr(a.y, a2.y, b.y, b2.y);
    crate::rational::lemma_add_congr(a.z, a2.z, b.z, b2.z);
    crate::rational::lemma_sub_congr(a.x, a2.x, b.x, b2.x);
    crate::rational::lemma_sub_congr(a.y, a2.y, b.y, b2.y);
    crate::rational::lemma_sub_congr(a.z, a2.z, b.z, b2.z);
}

pub proof fn lemma_v3_scale_congr(k: Ratio, k2: Ratio, a: Vec3v, a2: Vec3v)
    requires
        rv_wf(k),
        rv_wf(k2),
        v3_wf(a),
        v3_wf(a2),
        rat_eq(k, k2),
        v3_eq(a, a2),
    ensures
        v3_eq(v3_scale(k, a), v3_scale(k2, a2)),
{
    crate::rational::lemma_mul_congr(k, k2, a.x, a2.x);
    crate::rational::lemma_mul_congr(k, k2, a.y, a2.y);
    crate::rational::lemma_mul_congr(k, k2, a.z, a2.z);
}


/// Congruence of the dot product.
pub proof fn lemma_v3_dot_congr(a: Vec3v, a2: Vec3v, b: Vec3v, b2: Vec3v)
    requires
        v3_wf(a),
        v3_wf(a2),
        v3_wf(b),
        v3_wf(b2),
        v3_eq(a, a2),
        v3_eq(b, b2),
    ensures
        rat_eq(v3_dot(a, b), v3_dot(a2, b2)),
{
    crate::rational::lemma_mul_congr(a.x, a2.x, b.x, b2.x);
    crate::rational::lemma_mul_congr(a.y, a2.y, b.y, b2.y);
    crate::rational::lemma_mul_congr(a.z, a2.z, b.z, b2.z);
    crate::rational::lemma_wf_add(a.x, b.x);
    crate::rational::lemma_wf_add(a.y, b.y);
    crate::rational::lemma_wf_add(a.z, b.z);
    crate::rational::lemma_wf_add(a2.x, b2.x);
    crate::rational::lemma_wf_add(a2.y, b2.y);
    crate::rational::lemma_wf_add(a2.z, b2.z);
    crate::rational::lemma_add_congr(
        mul_v(a.x, b.x),
        mul_v(a2.x, b2.x),
        mul_v(a.y, b.y),
        mul_v(a2.y, b2.y),
    );
    crate::rational::lemma_wf_add(mul_v(a.x, b.x), mul_v(a.y, b.y));
    crate::rational::lemma_wf_add(mul_v(a2.x, b2.x), mul_v(a2.y, b2.y));
    crate::rational::lemma_add_congr(
        add_v(mul_v(a.x, b.x), mul_v(a.y, b.y)),
        add_v(mul_v(a2.x, b2.x), mul_v(a2.y, b2.y)),
        mul_v(a.z, b.z),
        mul_v(a2.z, b2.z),
    );
}

pub proof fn lemma_v3_eq_trans(a: Vec3v, b: Vec3v, c: Vec3v)
    requires
        v3_wf(b),
        v3_eq(a, b),
        v3_eq(b, c),
    ensures
        v3_eq(a, c),
{
    crate::rational::lemma_eq_trans(a.x, b.x, c.x);
    crate::rational::lemma_eq_trans(a.y, b.y, c.y);
    crate::rational::lemma_eq_trans(a.z, b.z, c.z);
}


// ---------------------------------------------------------------------------
// Exact mirrors of the executable vector arithmetic.
// ---------------------------------------------------------------------------

/// Exactly the sum `Vec3r::checked_add` returns.
pub open spec fn v3_add_full(a: Vec3v, b: Vec3v) -> Option<Vec3v> {
    match crate::rational::add_full(a.x, b.x) {
        None => None,
        Some(x) => match crate::rational::add_full(a.y, b.y) {
            None => None,
            Some(y) => match crate::rational::add_full(a.z, b.z) {
                None => None,
                Some(z) => Some(Vec3v { x, y, z }),
            },
        },
    }
}

/// Exactly the difference `Vec3r::checked_sub` returns.
pub open spec fn v3_sub_full(a: Vec3v, b: Vec3v) -> Option<Vec3v> {
    match crate::rational::sub_full(a.x, b.x) {
        None => None,
        Some(x) => match crate::rational::sub_full(a.y, b.y) {
            None => None,
            Some(y) => match crate::rational::sub_full(a.z, b.z) {
                None => None,
                Some(z) => Some(Vec3v { x, y, z }),
            },
        },
    }
}

/// Exactly the scaled vector `Vec3r::checked_scale` returns.
pub open spec fn v3_scale_full(k: Ratio, a: Vec3v) -> Option<Vec3v> {
    match crate::rational::mul_full(k, a.x) {
        None => None,
        Some(x) => match crate::rational::mul_full(k, a.y) {
            None => None,
            Some(y) => match crate::rational::mul_full(k, a.z) {
                None => None,
                Some(z) => Some(Vec3v { x, y, z }),
            },
        },
    }
}

/// Exactly the dot product `Vec3r::checked_dot` returns.
pub open spec fn v3_dot_full(a: Vec3v, b: Vec3v) -> Option<Ratio> {
    match crate::rational::mul_full(a.x, b.x) {
        None => None,
        Some(px) => match crate::rational::mul_full(a.y, b.y) {
            None => None,
            Some(py) => match crate::rational::mul_full(a.z, b.z) {
                None => None,
                Some(pz) => match crate::rational::add_full(px, py) {
                    None => None,
                    Some(sxy) => crate::rational::add_full(sxy, pz),
                },
            },
        },
    }
}

/// An exact rational vector.
#[derive(Clone, Copy, Debug)]
pub struct Vec3r {
    pub x: Rat,
    pub y: Rat,
    pub z: Rat,
}

impl View for Vec3r {
    type V = Vec3v;

    open spec fn view(&self) -> Vec3v {
        Vec3v { x: self.x@, y: self.y@, z: self.z@ }
    }
}

impl Vec3r {
    pub fn new(x: Rat, y: Rat, z: Rat) -> (r: Vec3r)
        ensures
            r@ == (Vec3v { x: x@, y: y@, z: z@ }),
    {
        Vec3r { x, y, z }
    }

    pub fn zero() -> (r: Vec3r)
        ensures
            r@ == v3_zero(),
    {
        Vec3r { x: Rat::zero(), y: Rat::zero(), z: Rat::zero() }
    }

    /// Componentwise exact equality of values.
    pub fn eq_val(&self, other: &Vec3r) -> (r: bool)
        ensures
            r == v3_eq(self@, other@),
    {
        self.x.eq_val(&other.x) && self.y.eq_val(&other.y) && self.z.eq_val(&other.z)
    }

    pub fn checked_add(&self, other: &Vec3r) -> (r: Option<Vec3r>)
        ensures
            r matches Some(w) ==> v3_eq(w@, v3_add(self@, other@)),
            fits(v3_add(self@, other@).x) && fits(v3_add(self@, other@).y) && fits(
                v3_add(self@, other@).z,
            ) ==> r is Some,
            r is Some <==> v3_add_full(self@, other@) is Some,
            r matches Some(w) ==> Some(w@) == v3_add_full(self@, other@),
    {
        let x = match self.x.checked_add(&other.x) {
            Some(v) => v,
            None => {
                return None;
            },
        };
        let y = match self.y.checked_add(&other.y) {
            Some(v) => v,
            None => {
                return None;
            },
        };
        let z = match self.z.checked_add(&other.z) {
            Some(v) => v,
            None => {
                return None;
            },
        };
        Some(Vec3r { x, y, z })
    }

    pub fn checked_sub(&self, other: &Vec3r) -> (r: Option<Vec3r>)
        ensures
            r matches Some(w) ==> v3_eq(w@, v3_sub(self@, other@)),
            fits(v3_sub(self@, other@).x) && fits(v3_sub(self@, other@).y) && fits(
                v3_sub(self@, other@).z,
            ) ==> r is Some,
            r is Some <==> v3_sub_full(self@, other@) is Some,
            r matches Some(w) ==> Some(w@) == v3_sub_full(self@, other@),
    {
        let x = match self.x.checked_sub(&other.x) {
            Some(v) => v,
            None => {
                return None;
            },
        };
        let y = match self.y.checked_sub(&other.y) {
            Some(v) => v,
            None => {
                return None;
            },
        };
        let z = match self.z.checked_sub(&other.z) {
            Some(v) => v,
            None => {
                return None;
            },
        };
        Some(Vec3r { x, y, z })
    }

    pub fn checked_scale(&self, k: &Rat) -> (r: Option<Vec3r>)
        ensures
            r matches Some(w) ==> v3_eq(w@, v3_scale(k@, self@)),
            fits(v3_scale(k@, self@).x) && fits(v3_scale(k@, self@).y) && fits(
                v3_scale(k@, self@).z,
            ) ==> r is Some,
            r is Some <==> v3_scale_full(k@, self@) is Some,
            r matches Some(w) ==> Some(w@) == v3_scale_full(k@, self@),
    {
        let x = match k.checked_mul(&self.x) {
            Some(v) => v,
            None => {
                return None;
            },
        };
        let y = match k.checked_mul(&self.y) {
            Some(v) => v,
            None => {
                return None;
            },
        };
        let z = match k.checked_mul(&self.z) {
            Some(v) => v,
            None => {
                return None;
            },
        };
        Some(Vec3r { x, y, z })
    }

    pub fn neg(&self) -> (r: Vec3r)
        ensures
            r@ == v3_neg(self@),
    {
        Vec3r { x: self.x.neg(), y: self.y.neg(), z: self.z.neg() }
    }

    /// Exact dot product of the two vectors.
    pub fn checked_dot(&self, other: &Vec3r) -> (r: Option<Rat>)
        ensures
            r matches Some(q) ==> rat_eq(q@, v3_dot(self@, other@)),
            r is Some <==> v3_dot_full(self@, other@) is Some,
            r matches Some(q) ==> Some(q@) == v3_dot_full(self@, other@),
    {
        proof {
            use_type_invariant(&self.x);
            use_type_invariant(&self.y);
            use_type_invariant(&self.z);
            use_type_invariant(&other.x);
            use_type_invariant(&other.y);
            use_type_invariant(&other.z);
        }
        let px = match self.x.checked_mul(&other.x) {
            Some(v) => v,
            None => {
                return None;
            },
        };
        let py = match self.y.checked_mul(&other.y) {
            Some(v) => v,
            None => {
                return None;
            },
        };
        let pz = match self.z.checked_mul(&other.z) {
            Some(v) => v,
            None => {
                return None;
            },
        };
        let sxy = match px.checked_add(&py) {
            Some(v) => v,
            None => {
                return None;
            },
        };
        let r = match sxy.checked_add(&pz) {
            Some(v) => v,
            None => {
                return None;
            },
        };
        proof {
            use_type_invariant(&px);
            use_type_invariant(&py);
            use_type_invariant(&pz);
            use_type_invariant(&sxy);
            use_type_invariant(&r);
            crate::rational::lemma_wf_add(self@.x, other@.x);
            crate::rational::lemma_wf_add(self@.y, other@.y);
            crate::rational::lemma_wf_add(self@.z, other@.z);
            crate::rational::lemma_add_congr(px@, mul_v(self@.x, other@.x), py@, mul_v(self@.y, other@.y));
            crate::rational::lemma_wf_add(mul_v(self@.x, other@.x), mul_v(self@.y, other@.y));
            crate::rational::lemma_wf_add(px@, py@);
            crate::rational::lemma_wf_add(sxy@, pz@);
            crate::rational::lemma_eq_trans(
                sxy@,
                add_v(px@, py@),
                add_v(mul_v(self@.x, other@.x), mul_v(self@.y, other@.y)),
            );
            crate::rational::lemma_add_congr(
                sxy@,
                add_v(mul_v(self@.x, other@.x), mul_v(self@.y, other@.y)),
                pz@,
                mul_v(self@.z, other@.z),
            );
            crate::rational::lemma_wf_add(
                add_v(mul_v(self@.x, other@.x), mul_v(self@.y, other@.y)),
                mul_v(self@.z, other@.z),
            );
            crate::rational::lemma_eq_trans(
                r@,
                add_v(sxy@, pz@),
                v3_dot(self@, other@),
            );
        }
        Some(r)
    }
}

} // verus!
