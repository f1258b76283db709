use ga3::{BiVec3, DualRotor3, GaError, MultiVec3, Rotor3, Scalar, TriVec3, Vec3};

fn s(i: i64) -> Scalar {
    Scalar::from_int(i)
}

fn q(num: i64, den: i64) -> Scalar {
    Scalar::new(num, den).unwrap()
}

fn vec(a: i64, b: i64, c: i64) -> Vec3 {
    Vec3::new(s(a), s(b), s(c))
}

#[test]
fn wedge_product() {
    assert_eq!(
        vec(1, 0, 0).wedge(Vec3::new(s(0), s(-2), s(0))).unwrap(),
        BiVec3::new(s(-2), s(0), s(0))
    );

    assert_eq!(vec(1, 2, 3).wedge(vec(1, 2, 3)).unwrap(), BiVec3::zero());
}

#[test]
fn inverse() {
    assert!(vec(6, 8, 0)
        .inverse()
        .unwrap()
        .is_close(Vec3::new(q(6, 100), q(8, 100), s(0))));

    assert_eq!(vec(1, 2, 3).wedge(vec(1, 2, 3)).unwrap(), BiVec3::zero());
}

#[test]
fn reflect() {
    assert_eq!(
        vec(0, 2, 0).reflected_by(vec(5, 0, 0)).unwrap(),
        Vec3::new(s(0), s(-2), s(0))
    );
    assert_eq!(
        vec(0, 2, 0).reflected_by(vec(1, 1, 0)).unwrap(),
        vec(2, 0, 0)
    );
}

#[test]
fn rotation() {
    let v = vec(1, 0, 1);

    // Unit vectors with exactly rational coordinates stand in for points on
    // the circle: a = (3/5, 4/5), b = (5/13, 12/13).  The sandwich
    // rot * v * a^-1 * b^-1 with rot = b * a rotates v about e3 by twice
    // the angle from a to b, whose cosine and sine are again rational.
    let a = Vec3::new(q(3, 5), q(4, 5), s(0));
    let b = Vec3::new(q(5, 13), q(12, 13), s(0));

    // cos(b-a) = 63/65, sin(b-a) = 16/65; doubling gives 3713/4225 and
    // 2016/4225.
    let c = Vec3::new(q(3713, 4225), q(2016, 4225), s(1));

    let rot = b.mul(a).unwrap();

    let step1 = rot.mul_vec(v).unwrap();
    let step2 = step1.mul_vec(a.inverse().unwrap()).unwrap();
    let step3 = step2.mul_vec(b.inverse().unwrap()).unwrap();

    let res = Vec3::try_from_dual_rotor(step3).unwrap();

    assert!(res.is_close(c));
    assert_eq!(res, c);
}

#[test]
fn wedge_antisymmetry() {
    let a = vec(2, -3, 5);
    let b = vec(7, 1, -4);
    assert_eq!(a.wedge(b).unwrap(), b.wedge(a).unwrap().neg());
}

#[test]
fn inverse_gives_identity_rotor() {
    let v = vec(6, 8, 0);
    let inv = v.inverse().unwrap();
    assert_eq!(v.mul(inv).unwrap(), Rotor3::identity());

    let w = Vec3::new(q(2, 3), q(-1, 7), q(5, 11));
    let winv = w.inverse().unwrap();
    assert_eq!(w.mul(winv).unwrap(), Rotor3::identity());
}

#[test]
fn inverse_of_zero_vector_fails() {
    assert_eq!(Vec3::zero().inverse(), Err(GaError::DivisionByZero));
}

#[test]
fn scalar_reduction_is_canonical() {
    let a = q(6, 100);
    assert_eq!(a.num, 3);
    assert_eq!(a.den, 50);
    assert_eq!(a, q(3, 50));
    assert_eq!(q(2, -4), q(-1, 2));
    assert_eq!(Scalar::new(1, 0), Err(GaError::DivisionByZero));
}

#[test]
fn scalar_arithmetic_is_exact() {
    assert_eq!(q(1, 3).add(q(1, 6)).unwrap(), q(1, 2));
    assert_eq!(q(1, 3).sub(q(1, 3)).unwrap(), Scalar::zero());
    assert_eq!(q(2, 3).mul(q(3, 2)).unwrap(), Scalar::one());
    assert_eq!(q(1, 2).div(q(1, 4)).unwrap(), s(2));
    assert_eq!(q(1, 2).div(Scalar::zero()), Err(GaError::DivisionByZero));
    assert_eq!(s(-7).neg(), s(7));
}

#[test]
fn scalar_overflow_is_reported() {
    let big = s(4_000_000_000_000_000_000);
    assert_eq!(big.mul(big), Err(GaError::Overflow));
}

#[test]
fn closeness_tolerance_is_strict() {
    // exactly 1e-7 away is not close; anything nearer is
    assert!(!q(1, 10_000_000).is_close(Scalar::zero()));
    assert!(q(1, 10_000_001).is_close(Scalar::zero()));
    assert!(Scalar::zero().is_close(Scalar::zero()));
}

#[test]
fn distance_comparator() {
    let a = vec(1, 2, 3);
    assert_eq!(a.distance_squared(vec(1, 2, 4)).unwrap(), s(1));
    // exactly 1e-10 apart in squared distance is not close; nearer is
    let b = Vec3::new(q(1, 100_000).add(s(1)).unwrap(), s(2), s(3));
    assert_eq!(a.distance_squared(b).unwrap(), q(1, 10_000_000_000));
    assert!(!a.is_close_by_distance(b).unwrap());
    let c = Vec3::new(q(1, 100_001).add(s(1)).unwrap(), s(2), s(3));
    assert!(a.is_close_by_distance(c).unwrap());
    assert!(a.is_close_by_distance(a).unwrap());
}

#[test]
fn length_of_pythagorean_vector_is_exact() {
    assert_eq!(vec(3, 4, 0).length().unwrap(), s(5));
    assert_eq!(vec(0, 2, 0).length_squared().unwrap(), s(4));
}

#[test]
fn from_to_quarter_turn() {
    let rot = Rotor3::from_to(vec(1, 0, 0), vec(0, 1, 0)).unwrap();
    // the rotor turning e1 onto e2 has scalar part cos(45 degrees)
    assert!(rot.e.is_close(q(70710678, 100000000)));
    assert!(rot.e12.is_close(q(70710678, 100000000)));
    assert_eq!(rot.e23, Scalar::zero());
    assert_eq!(rot.e31, Scalar::zero());
}

#[test]
fn from_to_antiparallel_is_degenerate() {
    let v = vec(3, 4, 0);
    assert_eq!(
        Rotor3::from_to(v, v.neg()),
        Err(GaError::DegenerateRotorInput)
    );
    assert_eq!(
        Rotor3::from_to(Vec3::zero(), v),
        Err(GaError::DegenerateRotorInput)
    );
}

#[test]
fn narrowing_accepts_negligible_residue() {
    let d = DualRotor3::new(vec(1, 2, 3), TriVec3::new(q(1, 100_000_000)));
    assert_eq!(Vec3::try_from_dual_rotor(d).unwrap(), vec(1, 2, 3));

    let m = MultiVec3::new(Scalar::zero(), vec(4, 5, 6), BiVec3::zero(), TriVec3::zero());
    assert_eq!(Vec3::try_from_multi_vec(m).unwrap(), vec(4, 5, 6));
}

#[test]
fn narrowing_rejects_scalar_residue() {
    let m = MultiVec3::new(Scalar::one(), vec(1, 2, 3), BiVec3::zero(), TriVec3::zero());
    assert_eq!(Vec3::try_from_multi_vec(m), Err(GaError::NotAPureVector));

    let biv = BiVec3::new(q(1, 1_000_000), s(0), s(0));
    let m2 = MultiVec3::new(Scalar::zero(), vec(1, 2, 3), biv, TriVec3::zero());
    assert_eq!(Vec3::try_from_multi_vec(m2), Err(GaError::NotAPureVector));

    let d = DualRotor3::new(vec(1, 2, 3), TriVec3::new(q(1, 1_000_000)));
    assert_eq!(Vec3::try_from_dual_rotor(d), Err(GaError::NotAPureVector));
}

fn embed_vec(v: Vec3) -> MultiVec3 {
    MultiVec3::new(Scalar::zero(), v, BiVec3::zero(), TriVec3::zero())
}

fn embed_rotor(r: Rotor3) -> MultiVec3 {
    MultiVec3::new(
        r.e,
        Vec3::zero(),
        BiVec3::new(r.e12, r.e23, r.e31),
        TriVec3::zero(),
    )
}

fn embed_dual(d: DualRotor3) -> MultiVec3 {
    MultiVec3::new(
        Scalar::zero(),
        Vec3::new(d.e1, d.e2, d.e3),
        BiVec3::zero(),
        TriVec3::new(d.e123),
    )
}

#[test]
fn narrow_products_agree_with_multivector_table() {
    let a = vec(2, -3, 5);
    let b = vec(7, 1, -4);

    // vector * vector
    let narrow = a.mul(b).unwrap();
    let general = embed_vec(a).mul(embed_vec(b)).unwrap();
    assert_eq!(general, embed_rotor(narrow));

    // rotor * rotor
    let r1 = a.mul(b).unwrap();
    let r2 = b.mul(a).unwrap();
    let narrow_rr = r1.mul(r2).unwrap();
    let general_rr = embed_rotor(r1).mul(embed_rotor(r2)).unwrap();
    assert_eq!(general_rr, embed_rotor(narrow_rr));

    // rotor * vector
    let narrow_rv = r1.mul_vec(a).unwrap();
    let general_rv = embed_rotor(r1).mul(embed_vec(a)).unwrap();
    assert_eq!(general_rv, embed_dual(narrow_rv));

    // dual rotor * vector
    let narrow_dv = narrow_rv.mul_vec(b).unwrap();
    let general_dv = embed_dual(narrow_rv).mul(embed_vec(b)).unwrap();
    assert_eq!(general_dv, embed_rotor(narrow_dv));

    // multivector * vector specialization
    let g = embed_rotor(r1).mul(embed_dual(narrow_rv)).unwrap();
    assert_eq!(g.mul_vec(b).unwrap(), g.mul(embed_vec(b)).unwrap());
}

#[test]
fn vector_arithmetic_componentwise() {
    let a = vec(1, 2, 3);
    let b = vec(4, -5, 6);
    assert_eq!(a.add(b).unwrap(), vec(5, -3, 9));
    assert_eq!(a.sub(b).unwrap(), Vec3::new(s(-3), s(7), s(-3)));
    assert_eq!(a.neg(), Vec3::new(s(-1), s(-2), s(-3)));
    assert_eq!(a.scale(s(2)).unwrap(), vec(2, 4, 6));
    assert_eq!(vec(2, 4, 6).div(s(2)).unwrap(), a);
    assert_eq!(a.div(Scalar::zero()), Err(GaError::DivisionByZero));
    assert_eq!(a.dot(b).unwrap(), s(12));
    assert!(a.is_close(a));
    assert!(!a.is_close(b));
    assert!(!a.is_zero());
    assert!(Vec3::zero().is_zero());
}
