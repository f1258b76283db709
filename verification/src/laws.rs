//! The central algebraic laws of the library, proved once and for all:
//! the self-wedge vanishes, the wedge is antisymmetric, a nonzero vector
//! times its inverse is the identity rotor, and the narrow graded products
//! agree with the full multivector multiplication table.
//!
//! Each law is stated over the specification mirrors that the executable
//! operations are proved equal to, so it holds of every run of the code.

use vstd::prelude::*;
use crate::frac::{feq, fadd, fsub, fmul, fdiv, Frac};
use crate::scalar::{Scalar, szero, sneg, sadd, ssub, smul, radd, rsub, rmul,
    lemma_s_of_int_wf, lemma_szero_unit, lemma_smul_comm, lemma_ssub_antisym, lemma_ssub_self,
    lemma_rzero_unit, lemma_smul_neg, lemma_sadd_neg, lemma_sadd_props, lemma_ssub_props,
    lemma_smul_props, lemma_sdiv_props, lemma_wf_unique, lemma_wf_int};
use crate::vec3::{Vec3, spec_is_vzero, spec_dot, spec_wedge, wedge_e12, wedge_e23, wedge_e31,
    spec_vv_mul, spec_inverse, spec_length_squared, spec_vdiv, lemma_dot_value,
    lemma_dot_self_nonneg};
use crate::bivec3::{BiVec3, spec_bzero, spec_bneg};
use crate::rotor::{Rotor3, DualRotor3, spec_ridentity, spec_rr_mul, spec_rv_mul, spec_dv_mul};
use crate::multivec::{MultiVec3, spec_mv_mul, spec_mvv_mul, mv_e, mv_e1, mv_e2, mv_e3, mv_e12,
    mv_e23, mv_e31, mv_e123};
use crate::GaError;

verus! {

/// A vector seen as a multivector: only the vector grade is set.
pub open spec fn embed_vec(v: Vec3) -> MultiVec3 {
    MultiVec3 {
        e: szero(),
        e1: v.e1,
        e2: v.e2,
        e3: v.e3,
        e12: szero(),
        e23: szero(),
        e31: szero(),
        e123: szero(),
    }
}

/// A rotor seen as a multivector: only the even grades are set.
pub open spec fn embed_rotor(r: Rotor3) -> MultiVec3 {
    MultiVec3 {
        e: r.e,
        e1: szero(),
        e2: szero(),
        e3: szero(),
        e12: r.e12,
        e23: r.e23,
        e31: r.e31,
        e123: szero(),
    }
}

/// A dual rotor seen as a multivector: only the odd grades are set.
pub open spec fn embed_dual(d: DualRotor3) -> MultiVec3 {
    MultiVec3 {
        e: szero(),
        e1: d.e1,
        e2: d.e2,
        e3: d.e3,
        e12: szero(),
        e23: szero(),
        e31: szero(),
        e123: d.e123,
    }
}

/// A product of positive factors is positive.
proof fn lemma_pos2(a: int, b: int)
    by (nonlinear_arith)
    requires
        a >= 1,
        b >= 1,
    ensures
        a * b >= 1,
{
}

/// Well-formedness passes through the sequencing combinators.
proof fn lemma_rops_wf(x: Result<Scalar, GaError>, y: Result<Scalar, GaError>)
    requires
        x matches Ok(s) ==> s.wf(),
        y matches Ok(s) ==> s.wf(),
    ensures
        radd(x, y) matches Ok(s) ==> s.wf(),
        rsub(x, y) matches Ok(s) ==> s.wf(),
        rmul(x, y) matches Ok(s) ==> s.wf(),
{
    match x {
        Ok(a) => match y {
            Ok(b) => {
                lemma_sadd_props(a, b);
                lemma_ssub_props(a, b);
                lemma_smul_props(a, b);
            },
            Err(_) => {},
        },
        Err(_) => {},
    }
}

/// Self-wedge is always zero: whenever `wedge(v, v)` returns a bivector at
/// all, that bivector is `BiVec3::zero()`.
pub proof fn lemma_wedge_self_zero(v: Vec3)
    requires
        v.wf(),
    ensures
        spec_wedge(v, v) matches Ok(b) ==> b == spec_bzero(),
{
    lemma_smul_comm(v.e1, v.e2);
    lemma_smul_comm(v.e2, v.e3);
    lemma_smul_comm(v.e3, v.e1);
    match smul(v.e1, v.e2) {
        Ok(m) => {
            lemma_smul_props(v.e1, v.e2);
            lemma_ssub_self(m);
        },
        Err(_) => {},
    }
    match smul(v.e2, v.e3) {
        Ok(m) => {
            lemma_smul_props(v.e2, v.e3);
            lemma_ssub_self(m);
        },
        Err(_) => {},
    }
    match smul(v.e3, v.e1) {
        Ok(m) => {
            lemma_smul_props(v.e3, v.e1);
            lemma_ssub_self(m);
        },
        Err(_) => {},
    }
}

/// One wedge component taken in the opposite order is the negation of the
/// original, failure included.
proof fn lemma_wedge_comp_antisym(ax: Scalar, ay: Scalar, bx: Scalar, by: Scalar)
    requires
        ax.wf(),
        ay.wf(),
        bx.wf(),
        by.wf(),
    ensures
        rsub(smul(bx, ay), smul(by, ax)) == (match rsub(smul(ax, by), smul(ay, bx)) {
            Ok(s) => Ok::<Scalar, GaError>(sneg(s)),
            Err(e) => Err::<Scalar, GaError>(e),
        }),
{
    lemma_smul_comm(bx, ay);
    lemma_smul_comm(by, ax);
    lemma_smul_props(ax, by);
    lemma_smul_props(ay, bx);
    match smul(ax, by) {
        Ok(x) => match smul(ay, bx) {
            Ok(y) => {
                lemma_ssub_antisym(x, y);
            },
            Err(_) => {},
        },
        Err(_) => {},
    }
}

/// Wedge antisymmetry: `wedge(b, a)` is the componentwise negation of
/// `wedge(a, b)`, and they fail together.
pub proof fn lemma_wedge_antisym(a: Vec3, b: Vec3)
    requires
        a.wf(),
        b.wf(),
    ensures
        spec_wedge(b, a) == (match spec_wedge(a, b) {
            Ok(w) => Ok::<BiVec3, GaError>(spec_bneg(w)),
            Err(e) => Err::<BiVec3, GaError>(e),
        }),
{
    lemma_wedge_comp_antisym(a.e1, a.e2, b.e1, b.e2);
    lemma_wedge_comp_antisym(a.e2, a.e3, b.e2, b.e3);
    lemma_wedge_comp_antisym(a.e3, a.e1, b.e3, b.e1);
    assert(wedge_e12(b, a) == (match wedge_e12(a, b) {
        Ok(s) => Ok::<Scalar, GaError>(sneg(s)),
        Err(e) => Err::<Scalar, GaError>(e),
    }));
    assert(wedge_e23(b, a) == (match wedge_e23(a, b) {
        Ok(s) => Ok::<Scalar, GaError>(sneg(s)),
        Err(e) => Err::<Scalar, GaError>(e),
    }));
    assert(wedge_e31(b, a) == (match wedge_e31(a, b) {
        Ok(s) => Ok::<Scalar, GaError>(sneg(s)),
        Err(e) => Err::<Scalar, GaError>(e),
    }));
}

/// The scalar part of `v * inverse(v)` names one: the sum of the squared
/// components divided by the squared length.
proof fn lemma_sum_div_one(v1: Frac, v2: Frac, v3: Frac, l: Frac, w1: Frac, w2: Frac, w3: Frac,
    t: Frac)
    requires
        v1.d >= 1,
        v2.d >= 1,
        v3.d >= 1,
        l.d >= 1,
        l.n >= 1,
        w1.d >= 1,
        w2.d >= 1,
        w3.d >= 1,
        t.d >= 1,
        feq(w1, fdiv(v1, l)),
        feq(w2, fdiv(v2, l)),
        feq(w3, fdiv(v3, l)),
        feq(l, fadd(fadd(fmul(v1, v1), fmul(v2, v2)), fmul(v3, v3))),
        feq(t, fadd(fadd(fmul(v1, w1), fmul(v2, w2)), fmul(v3, w3))),
    ensures
        feq(t, crate::frac::f_of_int(1)),
{
    let f1 = fmul(v1, v1);
    let f2 = fmul(v2, v2);
    let f3 = fmul(v3, v3);
    let f12 = fadd(f1, f2);
    let s = fadd(f12, f3);
    let d1 = fdiv(f1, l);
    let d2 = fdiv(f2, l);
    let d3 = fdiv(f3, l);
    let m1 = fmul(v1, w1);
    let m2 = fmul(v2, w2);
    let m3 = fmul(v3, w3);
    let tp = fadd(fadd(m1, m2), m3);
    lemma_pos2(v1.d, v1.d);
    lemma_pos2(v2.d, v2.d);
    lemma_pos2(v3.d, v3.d);
    lemma_pos2(f1.d, f2.d);
    lemma_pos2(f12.d, f3.d);
    lemma_pos2(v1.d, w1.d);
    lemma_pos2(v2.d, w2.d);
    lemma_pos2(v3.d, w3.d);
    lemma_pos2(m1.d, m2.d);
    lemma_pos2(m1.d * m2.d, m3.d);
    lemma_pos2(v1.d, l.n);
    lemma_pos2(v2.d, l.n);
    lemma_pos2(v3.d, l.n);
    lemma_pos2(v1.d, v1.d * l.n);
    lemma_pos2(v2.d, v2.d * l.n);
    lemma_pos2(v3.d, v3.d * l.n);
    lemma_pos2(f1.d, l.n);
    lemma_pos2(f2.d, l.n);
    lemma_pos2(f3.d, l.n);
    lemma_pos2(f1.d * l.n, f2.d * l.n);
    lemma_pos2(f12.d, l.n);
    lemma_pos2(f12.d * l.n, f3.d * l.n);
    lemma_pos2(s.d, l.n);
    crate::frac::lemma_fmul_cong(v1, v1, w1, fdiv(v1, l));
    crate::frac::lemma_fmul_fdiv(v1, l);
    crate::frac::lemma_feq_trans(m1, fmul(v1, fdiv(v1, l)), d1);
    crate::frac::lemma_fmul_cong(v2, v2, w2, fdiv(v2, l));
    crate::frac::lemma_fmul_fdiv(v2, l);
    crate::frac::lemma_feq_trans(m2, fmul(v2, fdiv(v2, l)), d2);
    crate::frac::lemma_fmul_cong(v3, v3, w3, fdiv(v3, l));
    crate::frac::lemma_fmul_fdiv(v3, l);
    crate::frac::lemma_feq_trans(m3, fmul(v3, fdiv(v3, l)), d3);
    crate::frac::lemma_fadd_cong(m1, d1, m2, d2);
    crate::frac::lemma_fdiv_add(f1, f2, l);
    crate::frac::lemma_feq_trans(fadd(m1, m2), fadd(d1, d2), fdiv(f12, l));
    crate::frac::lemma_fadd_cong(fadd(m1, m2), fdiv(f12, l), m3, d3);
    crate::frac::lemma_fdiv_add(f12, f3, l);
    crate::frac::lemma_feq_trans(tp, fadd(fdiv(f12, l), d3), fdiv(s, l));
    crate::frac::lemma_fdiv_self(s, l);
    crate::frac::lemma_feq_trans(tp, fdiv(s, l), crate::frac::f_of_int(1));
    crate::frac::lemma_feq_trans(t, tp, crate::frac::f_of_int(1));
}

/// One wedge component of `v` against `v / (v . v)` is the canonical zero.
proof fn lemma_inv_wedge_comp(vx: Scalar, vy: Scalar, l: Scalar, wx: Scalar, wy: Scalar,
    c: Scalar)
    requires
        vx.wf(),
        vy.wf(),
        l.wf(),
        wx.wf(),
        wy.wf(),
        c.wf(),
        l.view().n >= 1,
        feq(wx.view(), fdiv(vx.view(), l.view())),
        feq(wy.view(), fdiv(vy.view(), l.view())),
        rsub(smul(vx, wy), smul(vy, wx)) == Ok::<Scalar, GaError>(c),
    ensures
        c == szero(),
{
    lemma_smul_props(vx, wy);
    lemma_smul_props(vy, wx);
    let m1 = smul(vx, wy)->Ok_0;
    let m2 = smul(vy, wx)->Ok_0;
    lemma_ssub_props(m1, m2);
    let fx = vx.view();
    let fy = vy.view();
    let fl = l.view();
    let g1 = fmul(fx, fdiv(fy, fl));
    let g2 = fmul(fy, fdiv(fx, fl));
    crate::frac::lemma_fmul_cong(fx, fx, wy.view(), fdiv(fy, fl));
    crate::frac::lemma_fmul_cong(fy, fy, wx.view(), fdiv(fx, fl));
    lemma_pos2(fx.d, wy.view().d);
    lemma_pos2(fy.d, wx.view().d);
    lemma_pos2(fy.d, fl.n);
    lemma_pos2(fx.d, fl.n);
    lemma_pos2(fx.d, fy.d * fl.n);
    lemma_pos2(fy.d, fx.d * fl.n);
    lemma_pos2(m1.view().d, m2.view().d);
    crate::frac::lemma_feq_trans(m1.view(), fmul(fx, wy.view()), g1);
    crate::frac::lemma_feq_trans(m2.view(), fmul(fy, wx.view()), g2);
    crate::frac::lemma_fsub_cong(m1.view(), g1, m2.view(), g2);
    let wfrac = fsub(g1, g2);
    crate::frac::lemma_feq_trans(c.view(), fsub(m1.view(), m2.view()), wfrac);
    assert(wfrac.n == 0) by (nonlinear_arith)
        requires
            wfrac.n == (fx.n * (fy.n * fl.d)) * ((fy.d) * (fx.d * fl.n)) - (fy.n * (fx.n
                * fl.d)) * ((fx.d) * (fy.d * fl.n)),
    ;
    assert(wfrac.d >= 1) by (nonlinear_arith)
        requires
            fx.d >= 1,
            fy.d >= 1,
            fl.n >= 1,
            wfrac.d == (fx.d * (fy.d * fl.n)) * (fy.d * (fx.d * fl.n)),
    ;
    assert(c.view().n == 0) by (nonlinear_arith)
        requires
            c.view().n * wfrac.d == wfrac.n * c.view().d,
            wfrac.n == 0,
            wfrac.d >= 1,
    ;
    assert(feq(c.view(), Frac { n: 0, d: 1 }));
    lemma_wf_int(c, 0);
}

/// Inverse correctness: whenever `inverse(v)` of a nonzero vector and the
/// geometric product `v * inverse(v)` both come back, that product is the
/// identity rotor: scalar part exactly one, bivector part exactly zero.
pub proof fn lemma_inverse_identity(v: Vec3)
    requires
        v.wf(),
        !spec_is_vzero(v),
    ensures
        spec_inverse(v) matches Ok(w) ==> (spec_vv_mul(v, w) matches Ok(r) ==> r
            == spec_ridentity()),
{
    match spec_length_squared(v) {
        Err(_) => {},
        Ok(l) => {
            lemma_dot_self_nonneg(v, l);
            lemma_dot_value(v, v, l);
            match spec_vdiv(v, l) {
                Err(_) => {},
                Ok(w) => {
                    lemma_sdiv_props(v.e1, l);
                    lemma_sdiv_props(v.e2, l);
                    lemma_sdiv_props(v.e3, l);
                    match spec_vv_mul(v, w) {
                        Err(_) => {},
                        Ok(r) => {
                            lemma_dot_value(v, w, r.e);
                            assert(r.e.view().d >= 1);
                            lemma_sum_div_one(
                                v.e1.view(),
                                v.e2.view(),
                                v.e3.view(),
                                l.view(),
                                w.e1.view(),
                                w.e2.view(),
                                w.e3.view(),
                                r.e.view(),
                            );
                            lemma_wf_int(r.e, 1);
                            lemma_smul_props(v.e1, w.e2);
                            lemma_smul_props(v.e2, w.e1);
                            lemma_smul_props(v.e2, w.e3);
                            lemma_smul_props(v.e3, w.e2);
                            lemma_smul_props(v.e3, w.e1);
                            lemma_smul_props(v.e1, w.e3);
                            match wedge_e12(v, w) {
                                Ok(c) => {
                                    lemma_rops_wf(smul(v.e1, w.e2), smul(v.e2, w.e1));
                                    lemma_inv_wedge_comp(v.e1, v.e2, l, w.e1, w.e2, c);
                                },
                                Err(_) => {},
                            }
                            match wedge_e23(v, w) {
                                Ok(c) => {
                                    lemma_rops_wf(smul(v.e2, w.e3), smul(v.e3, w.e2));
                                    lemma_inv_wedge_comp(v.e2, v.e3, l, w.e2, w.e3, c);
                                },
                                Err(_) => {},
                            }
                            match wedge_e31(v, w) {
                                Ok(c) => {
                                    lemma_rops_wf(smul(v.e3, w.e1), smul(v.e1, w.e3));
                                    lemma_inv_wedge_comp(v.e3, v.e1, l, w.e3, w.e1, c);
                                },
                                Err(_) => {},
                            }
                            lemma_s_of_int_wf(0);
                            lemma_s_of_int_wf(1);
                        },
                    }
                },
            }
        },
    }
}

/// Generality agreement for the vector-vector product: multiplying two
/// vectors embedded into `MultiVec3` with the full table returns exactly
/// the embedding of their narrow geometric product, failure included.
#[verifier::rlimit(100)]
pub proof fn lemma_mv_agrees_vec_mul(a: Vec3, b: Vec3)
    requires
        a.wf(),
        b.wf(),
    ensures
        spec_mv_mul(embed_vec(a), embed_vec(b)) == (match spec_vv_mul(a, b) {
            Ok(r) => Ok::<MultiVec3, GaError>(embed_rotor(r)),
            Err(e) => Err::<MultiVec3, GaError>(e),
        }),
{
    let za = embed_vec(a);
    let zb = embed_vec(b);
    lemma_s_of_int_wf(0);
    lemma_szero_unit(szero());
    lemma_szero_unit(a.e1);
    lemma_szero_unit(a.e2);
    lemma_szero_unit(a.e3);
    lemma_szero_unit(b.e1);
    lemma_szero_unit(b.e2);
    lemma_szero_unit(b.e3);
    lemma_smul_props(a.e1, b.e1);
    lemma_smul_props(a.e2, b.e2);
    lemma_smul_props(a.e3, b.e3);
    lemma_smul_props(a.e1, b.e2);
    lemma_smul_props(a.e2, b.e1);
    lemma_smul_props(a.e2, b.e3);
    lemma_smul_props(a.e3, b.e2);
    lemma_smul_props(a.e3, b.e1);
    lemma_smul_props(a.e1, b.e3);
    assert(mv_e(za, zb) == spec_dot(a, b)) by {
        lemma_rzero_unit(smul(a.e1, b.e1));
        lemma_rops_wf(smul(a.e1, b.e1), smul(a.e2, b.e2));
        lemma_rops_wf(radd(smul(a.e1, b.e1), smul(a.e2, b.e2)), smul(a.e3, b.e3));
        lemma_rzero_unit(radd(radd(smul(a.e1, b.e1), smul(a.e2, b.e2)), smul(a.e3, b.e3)));
    }
    assert(mv_e1(za, zb) == Ok::<Scalar, GaError>(szero()));
    assert(mv_e2(za, zb) == Ok::<Scalar, GaError>(szero()));
    assert(mv_e3(za, zb) == Ok::<Scalar, GaError>(szero()));
    assert(mv_e123(za, zb) == Ok::<Scalar, GaError>(szero()));
    assert(mv_e12(za, zb) == wedge_e12(a, b)) by {
        lemma_rzero_unit(smul(a.e1, b.e2));
        lemma_rops_wf(smul(a.e1, b.e2), smul(a.e2, b.e1));
        lemma_rzero_unit(rsub(smul(a.e1, b.e2), smul(a.e2, b.e1)));
    }
    assert(mv_e23(za, zb) == wedge_e23(a, b)) by {
        lemma_rzero_unit(smul(a.e2, b.e3));
        lemma_rops_wf(smul(a.e2, b.e3), smul(a.e3, b.e2));
        lemma_rzero_unit(rsub(smul(a.e2, b.e3), smul(a.e3, b.e2)));
    }
    assert(mv_e31(za, zb) == wedge_e31(a, b)) by {
        lemma_rzero_unit(smul(a.e1, b.e3));
        match smul(a.e1, b.e3) {
            Ok(x3) => {
                crate::scalar::lemma_sneg_wf(x3);
                lemma_rzero_unit(Ok(sneg(x3)));
                match smul(a.e3, b.e1) {
                    Ok(x5) => {
                        lemma_sadd_neg(x3, x5);
                    },
                    Err(_) => {},
                }
            },
            Err(_) => {},
        }
        lemma_rops_wf(smul(a.e3, b.e1), smul(a.e1, b.e3));
        lemma_rzero_unit(rsub(smul(a.e3, b.e1), smul(a.e1, b.e3)));
    }
}

/// Two well-formed outcomes of the same three summands taken as
/// `(x - z) + y` and `(x + y) - z` are the same scalar.
proof fn lemma_reorder_sub(x: Result<Scalar, GaError>, y: Result<Scalar, GaError>, z: Result<
    Scalar,
    GaError,
>, p: Scalar, q: Scalar)
    requires
        x matches Ok(s) ==> s.wf(),
        y matches Ok(s) ==> s.wf(),
        z matches Ok(s) ==> s.wf(),
        radd(rsub(x, z), y) == Ok::<Scalar, GaError>(p),
        rsub(radd(x, y), z) == Ok::<Scalar, GaError>(q),
    ensures
        p == q,
{
    let xs = x->Ok_0;
    let ys = y->Ok_0;
    let zs = z->Ok_0;
    lemma_ssub_props(xs, zs);
    lemma_sadd_props(xs, ys);
    let u = ssub(xs, zs)->Ok_0;
    let w = sadd(xs, ys)->Ok_0;
    lemma_sadd_props(u, ys);
    lemma_ssub_props(w, zs);
    let fx = xs.view();
    let fy = ys.view();
    let fz = zs.view();
    crate::frac::lemma_fadd_cong(u.view(), fsub(fx, fz), ys.view(), fy);
    crate::frac::lemma_fsub_cong(w.view(), fadd(fx, fy), zs.view(), fz);
    lemma_pos2(fx.d, fz.d);
    lemma_pos2(fx.d * fz.d, fy.d);
    lemma_pos2(fx.d, fy.d);
    lemma_pos2(fx.d * fy.d, fz.d);
    lemma_pos2(u.view().d, fy.d);
    lemma_pos2(w.view().d, fz.d);
    crate::frac::lemma_feq_trans(p.view(), fadd(u.view(), fy), fadd(fsub(fx, fz), fy));
    crate::frac::lemma_feq_trans(q.view(), fsub(w.view(), fz), fsub(fadd(fx, fy), fz));
    crate::frac::lemma_fadd_fsub_swap(fx, fy, fz);
    crate::frac::lemma_feq_trans(p.view(), fadd(fsub(fx, fz), fy), fsub(fadd(fx, fy), fz));
    crate::frac::lemma_feq_trans(p.view(), fsub(fadd(fx, fy), fz), q.view());
    lemma_wf_unique(p, q);
}

/// Two well-formed outcomes of the same three summands taken as
/// `(x + y) + z` and `(z + x) + y` are the same scalar.
proof fn lemma_reorder_rot(x: Result<Scalar, GaError>, y: Result<Scalar, GaError>, z: Result<
    Scalar,
    GaError,
>, p: Scalar, q: Scalar)
    requires
        x matches Ok(s) ==> s.wf(),
        y matches Ok(s) ==> s.wf(),
        z matches Ok(s) ==> s.wf(),
        radd(radd(x, y), z) == Ok::<Scalar, GaError>(p),
        radd(radd(z, x), y) == Ok::<Scalar, GaError>(q),
    ensures
        p == q,
{
    let xs = x->Ok_0;
    let ys = y->Ok_0;
    let zs = z->Ok_0;
    lemma_sadd_props(xs, ys);
    lemma_sadd_props(zs, xs);
    let u = sadd(xs, ys)->Ok_0;
    let w = sadd(zs, xs)->Ok_0;
    lemma_sadd_props(u, zs);
    lemma_sadd_props(w, ys);
    let fx = xs.view();
    let fy = ys.view();
    let fz = zs.view();
    crate::frac::lemma_fadd_cong(u.view(), fadd(fx, fy), zs.view(), fz);
    crate::frac::lemma_fadd_cong(w.view(), fadd(fz, fx), ys.view(), fy);
    lemma_pos2(fx.d, fy.d);
    lemma_pos2(fx.d * fy.d, fz.d);
    lemma_pos2(fz.d, fx.d);
    lemma_pos2(fz.d * fx.d, fy.d);
    lemma_pos2(u.view().d, fz.d);
    lemma_pos2(w.view().d, fy.d);
    crate::frac::lemma_feq_trans(p.view(), fadd(u.view(), fz), fadd(fadd(fx, fy), fz));
    crate::frac::lemma_feq_trans(q.view(), fadd(w.view(), fy), fadd(fadd(fz, fx), fy));
    crate::frac::lemma_fadd_rotate(fx, fy, fz);
    crate::frac::lemma_feq_trans(p.view(), fadd(fadd(fx, fy), fz), fadd(fadd(fz, fx), fy));
    crate::frac::lemma_feq_trans(p.view(), fadd(fadd(fz, fx), fy), q.view());
    lemma_wf_unique(p, q);
}

/// Generality agreement for rotor composition: composing two rotors
/// embedded into `MultiVec3` with the full table returns exactly the
/// embedding of their narrow product, failure included.
#[verifier::rlimit(100)]
pub proof fn lemma_mv_agrees_rotor_mul(a: Rotor3, b: Rotor3)
    requires
        a.wf(),
        b.wf(),
    ensures
        spec_mv_mul(embed_rotor(a), embed_rotor(b)) == (match spec_rr_mul(a, b) {
            Ok(r) => Ok::<MultiVec3, GaError>(embed_rotor(r)),
            Err(e) => Err::<MultiVec3, GaError>(e),
        }),
{
    let za = embed_rotor(a);
    let zb = embed_rotor(b);
    lemma_s_of_int_wf(0);
    lemma_szero_unit(szero());
    lemma_szero_unit(a.e);
    lemma_szero_unit(a.e12);
    lemma_szero_unit(a.e23);
    lemma_szero_unit(a.e31);
    lemma_szero_unit(b.e);
    lemma_szero_unit(b.e12);
    lemma_szero_unit(b.e23);
    lemma_szero_unit(b.e31);
    assert(mv_e(za, zb) == rsub(
        rsub(rsub(smul(a.e, b.e), smul(a.e12, b.e12)), smul(a.e23, b.e23)),
        smul(a.e31, b.e31),
    )) by {
        lemma_smul_props(a.e, b.e);
        lemma_smul_props(a.e12, b.e12);
        lemma_smul_props(a.e23, b.e23);
        lemma_smul_props(a.e31, b.e31);
        lemma_rzero_unit(smul(a.e, b.e));
        lemma_rops_wf(smul(a.e, b.e), smul(a.e12, b.e12));
        lemma_rops_wf(rsub(smul(a.e, b.e), smul(a.e12, b.e12)), smul(a.e23, b.e23));
        lemma_rops_wf(
            rsub(rsub(smul(a.e, b.e), smul(a.e12, b.e12)), smul(a.e23, b.e23)),
            smul(a.e31, b.e31),
        );
        lemma_rzero_unit(
            rsub(
                rsub(rsub(smul(a.e, b.e), smul(a.e12, b.e12)), smul(a.e23, b.e23)),
                smul(a.e31, b.e31),
            ),
        );
    }
    assert(mv_e1(za, zb) == Ok::<Scalar, GaError>(szero()));
    assert(mv_e2(za, zb) == Ok::<Scalar, GaError>(szero()));
    assert(mv_e3(za, zb) == Ok::<Scalar, GaError>(szero()));
    assert(mv_e123(za, zb) == Ok::<Scalar, GaError>(szero()));
    assert(mv_e12(za, zb) == radd(
        rsub(radd(smul(a.e, b.e12), smul(a.e12, b.e)), smul(a.e23, b.e31)),
        smul(a.e31, b.e23),
    )) by {
        lemma_smul_props(a.e, b.e12);
        lemma_smul_props(a.e12, b.e);
        lemma_smul_props(a.e23, b.e31);
        lemma_smul_props(a.e31, b.e23);
        lemma_rops_wf(smul(a.e, b.e12), smul(a.e12, b.e));
        lemma_rzero_unit(radd(smul(a.e, b.e12), smul(a.e12, b.e)));
        lemma_rops_wf(radd(smul(a.e, b.e12), smul(a.e12, b.e)), smul(a.e23, b.e31));
        lemma_rops_wf(
            rsub(radd(smul(a.e, b.e12), smul(a.e12, b.e)), smul(a.e23, b.e31)),
            smul(a.e31, b.e23),
        );
        lemma_rzero_unit(
            radd(
                rsub(radd(smul(a.e, b.e12), smul(a.e12, b.e)), smul(a.e23, b.e31)),
                smul(a.e31, b.e23),
            ),
        );
    }
    assert(mv_e23(za, zb) == rsub(
        radd(radd(smul(a.e, b.e23), smul(a.e23, b.e)), smul(a.e12, b.e31)),
        smul(a.e31, b.e12),
    )) by {
        lemma_smul_props(a.e, b.e23);
        lemma_smul_props(a.e23, b.e);
        lemma_smul_props(a.e12, b.e31);
        lemma_smul_props(a.e31, b.e12);
        lemma_rops_wf(smul(a.e, b.e23), smul(a.e23, b.e));
        lemma_rzero_unit(radd(smul(a.e, b.e23), smul(a.e23, b.e)));
        lemma_rops_wf(radd(smul(a.e, b.e23), smul(a.e23, b.e)), smul(a.e12, b.e31));
        lemma_rops_wf(
            radd(radd(smul(a.e, b.e23), smul(a.e23, b.e)), smul(a.e12, b.e31)),
            smul(a.e31, b.e12),
        );
        lemma_rzero_unit(
            rsub(
                radd(radd(smul(a.e, b.e23), smul(a.e23, b.e)), smul(a.e12, b.e31)),
                smul(a.e31, b.e12),
            ),
        );
    }
    assert(mv_e31(za, zb) == radd(
        rsub(radd(smul(a.e, b.e31), smul(a.e31, b.e)), smul(a.e12, b.e23)),
        smul(a.e23, b.e12),
    )) by {
        lemma_smul_props(a.e, b.e31);
        lemma_smul_props(a.e31, b.e);
        lemma_smul_props(a.e12, b.e23);
        lemma_smul_props(a.e23, b.e12);
        lemma_rops_wf(smul(a.e, b.e31), smul(a.e31, b.e));
        lemma_rzero_unit(radd(smul(a.e, b.e31), smul(a.e31, b.e)));
        lemma_rops_wf(radd(smul(a.e, b.e31), smul(a.e31, b.e)), smul(a.e12, b.e23));
        lemma_rops_wf(
            rsub(radd(smul(a.e, b.e31), smul(a.e31, b.e)), smul(a.e12, b.e23)),
            smul(a.e23, b.e12),
        );
        lemma_rzero_unit(
            radd(
                rsub(radd(smul(a.e, b.e31), smul(a.e31, b.e)), smul(a.e12, b.e23)),
                smul(a.e23, b.e12),
            ),
        );
    }
}

/// Generality agreement for the dual-rotor-vector product, failure
/// included.
#[verifier::rlimit(100)]
pub proof fn lemma_mv_agrees_dual_vec(d: DualRotor3, v: Vec3)
    requires
        d.wf(),
        v.wf(),
    ensures
        spec_mv_mul(embed_dual(d), embed_vec(v)) == (match spec_dv_mul(d, v) {
            Ok(r) => Ok::<MultiVec3, GaError>(embed_rotor(r)),
            Err(e) => Err::<MultiVec3, GaError>(e),
        }),
{
    let za = embed_dual(d);
    let zb = embed_vec(v);
    lemma_s_of_int_wf(0);
    lemma_szero_unit(szero());
    lemma_szero_unit(d.e1);
    lemma_szero_unit(d.e2);
    lemma_szero_unit(d.e3);
    lemma_szero_unit(d.e123);
    lemma_szero_unit(v.e1);
    lemma_szero_unit(v.e2);
    lemma_szero_unit(v.e3);
    assert(mv_e(za, zb) == radd(radd(smul(d.e1, v.e1), smul(d.e2, v.e2)), smul(d.e3, v.e3)))
        by {
        lemma_smul_props(d.e1, v.e1);
        lemma_smul_props(d.e2, v.e2);
        lemma_smul_props(d.e3, v.e3);
        lemma_rzero_unit(smul(d.e1, v.e1));
        lemma_rops_wf(smul(d.e1, v.e1), smul(d.e2, v.e2));
        lemma_rops_wf(radd(smul(d.e1, v.e1), smul(d.e2, v.e2)), smul(d.e3, v.e3));
        lemma_rzero_unit(radd(radd(smul(d.e1, v.e1), smul(d.e2, v.e2)), smul(d.e3, v.e3)));
    }
    assert(mv_e1(za, zb) == Ok::<Scalar, GaError>(szero()));
    assert(mv_e2(za, zb) == Ok::<Scalar, GaError>(szero()));
    assert(mv_e3(za, zb) == Ok::<Scalar, GaError>(szero()));
    assert(mv_e123(za, zb) == Ok::<Scalar, GaError>(szero()));
    assert(mv_e12(za, zb) == radd(rsub(smul(d.e1, v.e2), smul(d.e2, v.e1)), smul(d.e123, v.e3)))
        by {
        lemma_smul_props(d.e1, v.e2);
        lemma_smul_props(d.e2, v.e1);
        lemma_smul_props(d.e123, v.e3);
        lemma_rzero_unit(smul(d.e1, v.e2));
        lemma_rops_wf(smul(d.e1, v.e2), smul(d.e2, v.e1));
        lemma_rzero_unit(rsub(smul(d.e1, v.e2), smul(d.e2, v.e1)));
        lemma_rops_wf(rsub(smul(d.e1, v.e2), smul(d.e2, v.e1)), smul(d.e123, v.e3));
        lemma_rzero_unit(radd(rsub(smul(d.e1, v.e2), smul(d.e2, v.e1)), smul(d.e123, v.e3)));
    }
    assert(mv_e23(za, zb) == radd(rsub(smul(d.e2, v.e3), smul(d.e3, v.e2)), smul(d.e123, v.e1)))
        by {
        lemma_smul_props(d.e2, v.e3);
        lemma_smul_props(d.e3, v.e2);
        lemma_smul_props(d.e123, v.e1);
        lemma_rzero_unit(smul(d.e2, v.e3));
        lemma_rops_wf(smul(d.e2, v.e3), smul(d.e3, v.e2));
        lemma_rzero_unit(rsub(smul(d.e2, v.e3), smul(d.e3, v.e2)));
        lemma_rops_wf(rsub(smul(d.e2, v.e3), smul(d.e3, v.e2)), smul(d.e123, v.e1));
        lemma_rzero_unit(radd(rsub(smul(d.e2, v.e3), smul(d.e3, v.e2)), smul(d.e123, v.e1)));
    }
    assert(mv_e31(za, zb) == radd(
        radd(smul(sneg(d.e1), v.e3), smul(d.e3, v.e1)),
        smul(d.e123, v.e2),
    )) by {
        lemma_smul_props(d.e1, v.e3);
        lemma_smul_props(d.e3, v.e1);
        lemma_smul_props(d.e123, v.e2);
        lemma_smul_neg(d.e1, v.e3);
        lemma_rzero_unit(smul(d.e1, v.e3));
        match smul(d.e1, v.e3) {
            Ok(x3) => {
                crate::scalar::lemma_sneg_wf(x3);
                lemma_rzero_unit(Ok(sneg(x3)));
            },
            Err(_) => {},
        }
        lemma_rops_wf(smul(sneg(d.e1), v.e3), smul(d.e3, v.e1));
        lemma_rops_wf(
            radd(smul(sneg(d.e1), v.e3), smul(d.e3, v.e1)),
            smul(d.e123, v.e2),
        );
        lemma_rzero_unit(
            radd(radd(smul(sneg(d.e1), v.e3), smul(d.e3, v.e1)), smul(d.e123, v.e2)),
        );
    }
}

/// Generality agreement for the multivector-vector specialization:
/// `mul_vec` returns exactly what the full table returns on the embedded
/// vector, failure included.
#[verifier::rlimit(100)]
pub proof fn lemma_mv_agrees_mul_vec(a: MultiVec3, v: Vec3)
    requires
        a.wf(),
        v.wf(),
    ensures
        spec_mv_mul(a, embed_vec(v)) == spec_mvv_mul(a, v),
{
    let zb = embed_vec(v);
    lemma_s_of_int_wf(0);
    lemma_szero_unit(szero());
    lemma_szero_unit(a.e);
    lemma_szero_unit(a.e1);
    lemma_szero_unit(a.e2);
    lemma_szero_unit(a.e3);
    lemma_szero_unit(a.e12);
    lemma_szero_unit(a.e23);
    lemma_szero_unit(a.e31);
    lemma_szero_unit(a.e123);
    lemma_szero_unit(v.e1);
    lemma_szero_unit(v.e2);
    lemma_szero_unit(v.e3);
    assert(mv_e(a, zb) == radd(radd(smul(a.e1, v.e1), smul(a.e2, v.e2)), smul(a.e3, v.e3)))
        by {
        lemma_smul_props(a.e1, v.e1);
        lemma_smul_props(a.e2, v.e2);
        lemma_smul_props(a.e3, v.e3);
        lemma_rzero_unit(smul(a.e1, v.e1));
        lemma_rops_wf(smul(a.e1, v.e1), smul(a.e2, v.e2));
        lemma_rops_wf(radd(smul(a.e1, v.e1), smul(a.e2, v.e2)), smul(a.e3, v.e3));
        lemma_rzero_unit(radd(radd(smul(a.e1, v.e1), smul(a.e2, v.e2)), smul(a.e3, v.e3)));
    }
    assert(mv_e1(a, zb) == rsub(radd(smul(a.e, v.e1), smul(a.e12, v.e2)), smul(a.e31, v.e3)))
        by {
        lemma_smul_props(a.e, v.e1);
        lemma_smul_props(a.e12, v.e2);
        lemma_smul_props(a.e31, v.e3);
        lemma_rzero_unit(smul(a.e, v.e1));
        lemma_rops_wf(smul(a.e, v.e1), smul(a.e12, v.e2));
        lemma_rops_wf(radd(smul(a.e, v.e1), smul(a.e12, v.e2)), smul(a.e31, v.e3));
        lemma_rzero_unit(radd(smul(a.e, v.e1), smul(a.e12, v.e2)));
        lemma_rzero_unit(
            rsub(radd(smul(a.e, v.e1), smul(a.e12, v.e2)), smul(a.e31, v.e3)),
        );
    }
    assert(mv_e2(a, zb) == radd(rsub(smul(a.e, v.e2), smul(a.e12, v.e1)), smul(a.e23, v.e3)))
        by {
        lemma_smul_props(a.e, v.e2);
        lemma_smul_props(a.e12, v.e1);
        lemma_smul_props(a.e23, v.e3);
        lemma_rzero_unit(smul(a.e, v.e2));
        lemma_rops_wf(smul(a.e, v.e2), smul(a.e12, v.e1));
        lemma_rzero_unit(rsub(smul(a.e, v.e2), smul(a.e12, v.e1)));
        lemma_rops_wf(rsub(smul(a.e, v.e2), smul(a.e12, v.e1)), smul(a.e23, v.e3));
        lemma_rzero_unit(
            radd(rsub(smul(a.e, v.e2), smul(a.e12, v.e1)), smul(a.e23, v.e3)),
        );
    }
    assert(mv_e3(a, zb) == radd(rsub(smul(a.e, v.e3), smul(a.e23, v.e2)), smul(a.e31, v.e1)))
        by {
        lemma_smul_props(a.e, v.e3);
        lemma_smul_props(a.e23, v.e2);
        lemma_smul_props(a.e31, v.e1);
        lemma_rzero_unit(smul(a.e, v.e3));
        lemma_rops_wf(smul(a.e, v.e3), smul(a.e23, v.e2));
        lemma_rzero_unit(rsub(smul(a.e, v.e3), smul(a.e23, v.e2)));
        lemma_rops_wf(rsub(smul(a.e, v.e3), smul(a.e23, v.e2)), smul(a.e31, v.e1));
        lemma_rzero_unit(
            radd(rsub(smul(a.e, v.e3), smul(a.e23, v.e2)), smul(a.e31, v.e1)),
        );
    }
    assert(mv_e12(a, zb) == radd(rsub(smul(a.e1, v.e2), smul(a.e2, v.e1)), smul(a.e123, v.e3)))
        by {
        lemma_smul_props(a.e1, v.e2);
        lemma_smul_props(a.e2, v.e1);
        lemma_smul_props(a.e123, v.e3);
        lemma_rzero_unit(smul(a.e1, v.e2));
        lemma_rops_wf(smul(a.e1, v.e2), smul(a.e2, v.e1));
        lemma_rzero_unit(rsub(smul(a.e1, v.e2), smul(a.e2, v.e1)));
        lemma_rops_wf(rsub(smul(a.e1, v.e2), smul(a.e2, v.e1)), smul(a.e123, v.e3));
        lemma_rzero_unit(
            radd(rsub(smul(a.e1, v.e2), smul(a.e2, v.e1)), smul(a.e123, v.e3)),
        );
    }
    assert(mv_e23(a, zb) == radd(rsub(smul(a.e2, v.e3), smul(a.e3, v.e2)), smul(a.e123, v.e1)))
        by {
        lemma_smul_props(a.e2, v.e3);
        lemma_smul_props(a.e3, v.e2);
        lemma_smul_props(a.e123, v.e1);
        lemma_rzero_unit(smul(a.e2, v.e3));
        lemma_rops_wf(smul(a.e2, v.e3), smul(a.e3, v.e2));
        lemma_rzero_unit(rsub(smul(a.e2, v.e3), smul(a.e3, v.e2)));
        lemma_rops_wf(rsub(smul(a.e2, v.e3), smul(a.e3, v.e2)), smul(a.e123, v.e1));
        lemma_rzero_unit(
            radd(rsub(smul(a.e2, v.e3), smul(a.e3, v.e2)), smul(a.e123, v.e1)),
        );
    }
    assert(mv_e31(a, zb) == radd(
        radd(smul(sneg(a.e1), v.e3), smul(a.e3, v.e1)),
        smul(a.e123, v.e2),
    )) by {
        lemma_smul_props(a.e1, v.e3);
        lemma_smul_props(a.e3, v.e1);
        lemma_smul_props(a.e123, v.e2);
        lemma_smul_neg(a.e1, v.e3);
        lemma_rzero_unit(smul(a.e1, v.e3));
        match smul(a.e1, v.e3) {
            Ok(x3) => {
                crate::scalar::lemma_sneg_wf(x3);
                lemma_rzero_unit(Ok(sneg(x3)));
            },
            Err(_) => {},
        }
        lemma_rops_wf(smul(sneg(a.e1), v.e3), smul(a.e3, v.e1));
        lemma_rops_wf(
            radd(smul(sneg(a.e1), v.e3), smul(a.e3, v.e1)),
            smul(a.e123, v.e2),
        );
        lemma_rzero_unit(
            radd(radd(smul(sneg(a.e1), v.e3), smul(a.e3, v.e1)), smul(a.e123, v.e2)),
        );
    }
    assert(mv_e123(a, zb) == radd(
        radd(smul(a.e23, v.e1), smul(a.e31, v.e2)),
        smul(a.e12, v.e3),
    )) by {
        lemma_smul_props(a.e23, v.e1);
        lemma_smul_props(a.e31, v.e2);
        lemma_smul_props(a.e12, v.e3);
        lemma_rzero_unit(smul(a.e23, v.e1));
        lemma_rops_wf(smul(a.e23, v.e1), smul(a.e31, v.e2));
        lemma_rops_wf(radd(smul(a.e23, v.e1), smul(a.e31, v.e2)), smul(a.e12, v.e3));
        lemma_rzero_unit(
            radd(radd(smul(a.e23, v.e1), smul(a.e31, v.e2)), smul(a.e12, v.e3)),
        );
    }
}

/// Generality agreement for the rotor-vector product: whenever the narrow
/// product and the full table on the embedded operands both come back,
/// they carry the same components.  (The two evaluate the same terms in a
/// different order, so one can overflow where the other does not; when
/// neither does, the results agree exactly.)
#[verifier::rlimit(100)]
pub proof fn lemma_mv_agrees_rotor_vec(a: Rotor3, v: Vec3)
    requires
        a.wf(),
        v.wf(),
    ensures
        spec_rv_mul(a, v) matches Ok(dr) ==> (spec_mv_mul(embed_rotor(a), embed_vec(v))
            matches Ok(m) ==> m == embed_dual(dr)),
{
    let za = embed_rotor(a);
    let zb = embed_vec(v);
    lemma_s_of_int_wf(0);
    lemma_szero_unit(szero());
    lemma_ssub_self(szero());
    lemma_szero_unit(a.e);
    lemma_szero_unit(a.e12);
    lemma_szero_unit(a.e23);
    lemma_szero_unit(a.e31);
    lemma_szero_unit(v.e1);
    lemma_szero_unit(v.e2);
    lemma_szero_unit(v.e3);
    lemma_smul_props(a.e, v.e1);
    lemma_smul_props(a.e12, v.e2);
    lemma_smul_props(a.e31, v.e3);
    lemma_smul_props(a.e, v.e2);
    lemma_smul_props(a.e23, v.e3);
    lemma_smul_props(a.e12, v.e1);
    lemma_smul_props(a.e, v.e3);
    lemma_smul_props(a.e31, v.e1);
    lemma_smul_props(a.e23, v.e2);
    lemma_smul_props(a.e12, v.e3);
    lemma_smul_props(a.e23, v.e1);
    lemma_smul_props(a.e31, v.e2);
    assert(mv_e(za, zb) == Ok::<Scalar, GaError>(szero()));
    assert(mv_e12(za, zb) == Ok::<Scalar, GaError>(szero()));
    assert(mv_e23(za, zb) == Ok::<Scalar, GaError>(szero()));
    assert(mv_e31(za, zb) == Ok::<Scalar, GaError>(szero()));
    assert(mv_e1(za, zb) == rsub(radd(smul(a.e, v.e1), smul(a.e12, v.e2)), smul(a.e31, v.e3)))
        by {
        lemma_rzero_unit(smul(a.e, v.e1));
        lemma_rops_wf(smul(a.e, v.e1), smul(a.e12, v.e2));
        lemma_rops_wf(radd(smul(a.e, v.e1), smul(a.e12, v.e2)), smul(a.e31, v.e3));
        lemma_rzero_unit(radd(smul(a.e, v.e1), smul(a.e12, v.e2)));
        lemma_rzero_unit(
            rsub(radd(smul(a.e, v.e1), smul(a.e12, v.e2)), smul(a.e31, v.e3)),
        );
    }
    assert(mv_e2(za, zb) == radd(rsub(smul(a.e, v.e2), smul(a.e12, v.e1)), smul(a.e23, v.e3)))
        by {
        lemma_rzero_unit(smul(a.e, v.e2));
        lemma_rops_wf(smul(a.e, v.e2), smul(a.e12, v.e1));
        lemma_rzero_unit(rsub(smul(a.e, v.e2), smul(a.e12, v.e1)));
        lemma_rops_wf(rsub(smul(a.e, v.e2), smul(a.e12, v.e1)), smul(a.e23, v.e3));
        lemma_rzero_unit(
            radd(rsub(smul(a.e, v.e2), smul(a.e12, v.e1)), smul(a.e23, v.e3)),
        );
    }
    assert(mv_e3(za, zb) == radd(rsub(smul(a.e, v.e3), smul(a.e23, v.e2)), smul(a.e31, v.e1)))
        by {
        lemma_rzero_unit(smul(a.e, v.e3));
        lemma_rops_wf(smul(a.e, v.e3), smul(a.e23, v.e2));
        lemma_rzero_unit(rsub(smul(a.e, v.e3), smul(a.e23, v.e2)));
        lemma_rops_wf(rsub(smul(a.e, v.e3), smul(a.e23, v.e2)), smul(a.e31, v.e1));
        lemma_rzero_unit(
            radd(rsub(smul(a.e, v.e3), smul(a.e23, v.e2)), smul(a.e31, v.e1)),
        );
    }
    assert(mv_e123(za, zb) == radd(
        radd(smul(a.e23, v.e1), smul(a.e31, v.e2)),
        smul(a.e12, v.e3),
    )) by {
        lemma_rzero_unit(smul(a.e23, v.e1));
        lemma_rops_wf(smul(a.e23, v.e1), smul(a.e31, v.e2));
        lemma_rops_wf(radd(smul(a.e23, v.e1), smul(a.e31, v.e2)), smul(a.e12, v.e3));
        lemma_rzero_unit(
            radd(radd(smul(a.e23, v.e1), smul(a.e31, v.e2)), smul(a.e12, v.e3)),
        );
    }
    match spec_rv_mul(a, v) {
        Ok(dr) => {
            match spec_mv_mul(za, zb) {
                Ok(m) => {
                    lemma_reorder_sub(
                        smul(a.e, v.e2),
                        smul(a.e23, v.e3),
                        smul(a.e12, v.e1),
                        m.e2,
                        dr.e2,
                    );
                    lemma_reorder_sub(
                        smul(a.e, v.e3),
                        smul(a.e31, v.e1),
                        smul(a.e23, v.e2),
                        m.e3,
                        dr.e3,
                    );
                    lemma_reorder_rot(
                        smul(a.e23, v.e1),
                        smul(a.e31, v.e2),
                        smul(a.e12, v.e3),
                        m.e123,
                        dr.e123,
                    );
                },
                Err(_) => {},
            }
        },
        Err(_) => {},
    }
}

} // verus!
