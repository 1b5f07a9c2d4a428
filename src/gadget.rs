//! Curve-level building blocks: canonical points, scalar multiples, the
//! curve equation, and the projective sum used by contract proofs.
use crate::curve::{
    affine_infinity, ec_add, ec_infinity, ec_mul, fe_eq, fe_from_u8, fp, fp_inv, generator,
    on_curve, scalar_from_u8, AffinePoint, EcPoint, FieldElement, JacobianPoint, Scalar,
};
use crate::secp::{ecmult_double, ecmult_gen_raw, fe_add, fe_inv, fe_mul, fe_neg, point_add_raw};
use vstd::arithmetic::div_mod::{
    lemma_add_mod_noop, lemma_mod_twice, lemma_mul_mod_noop_left, lemma_mul_mod_noop_right,
    lemma_small_mod, lemma_sub_mod_noop,
};
use vstd::prelude::*;

verus! {

/// Gives the point at infinity its zero coordinates.
fn canonical(p: AffinePoint) -> (r: AffinePoint)
    requires
        on_curve(p@),
        !p.infinity ==> p.x.wf() && p.y.wf(),
    ensures
        r@ == p@,
        r.valid(),
{
    if p.infinity {
        affine_infinity()
    } else {
        p
    }
}

/// Every multiple of the point at infinity is the point at infinity.
pub proof fn lemma_mul_infinity(k: nat)
    ensures
        ec_mul(k, ec_infinity()) == ec_infinity(),
    decreases k,
{
    if k > 0 {
        lemma_mul_infinity((k - 1) as nat);
    }
}

/// Builds the point (x, y).
pub fn affine_composer(x: &FieldElement, y: &FieldElement) -> (r: AffinePoint)
    ensures
        r.x == *x,
        r.y == *y,
        !r.infinity,
{
    AffinePoint { x: *x, y: *y, infinity: false }
}

/// The multiple `na·a`.
pub fn ecmult(a: &AffinePoint, na: &Scalar) -> (r: AffinePoint)
    requires
        a.valid(),
        na.wf(),
    ensures
        r.valid(),
        r@ == ec_mul(na.value(), a@),
{
    if a.infinity {
        proof {
            lemma_mul_infinity(na.value());
        }
        return affine_infinity();
    }
    let zero = scalar_from_u8(0);
    let r = ecmult_double(a, na, &zero);
    canonical(r)
}

/// The multiple `ng·G` of the base point.
pub fn ecmult_gen(ng: &Scalar) -> (r: AffinePoint)
    requires
        ng.wf(),
    ensures
        r.valid(),
        r@ == ec_mul(ng.value(), generator()),
{
    canonical(ecmult_gen_raw(ng))
}

/// The combination `na·a + ng·G`.
pub fn ecmult_combined(a: &AffinePoint, na: &Scalar, ng: &Scalar) -> (r: AffinePoint)
    requires
        a.valid(),
        na.wf(),
        ng.wf(),
    ensures
        r.valid(),
        r@ == ec_add(ec_mul(na.value(), a@), ec_mul(ng.value(), generator())),
{
    if a.infinity {
        proof {
            lemma_mul_infinity(na.value());
        }
        return ecmult_gen(ng);
    }
    canonical(ecmult_double(a, na, ng))
}

/// The sum `a + b`.
pub fn point_add(a: &AffinePoint, b: &AffinePoint) -> (r: AffinePoint)
    requires
        a.valid(),
        b.valid(),
    ensures
        r.valid(),
        r@ == ec_add(a@, b@),
{
    canonical(point_add_raw(a, b))
}

/// x^3 + 7, the square of y for a point of the curve with abscissa x.
pub fn y_squared(x: &FieldElement) -> (r: FieldElement)
    requires
        x.wf(),
    ensures
        r.wf(),
        r.value() == fp((x.value() * x.value() * x.value() + 7) as int),
{
    let t = fe_mul(x, x);
    let t = fe_mul(&t, x);
    let r = fe_add(&t, &fe_from_u8(7));
    proof {
        let p = crate::curve::field_prime() as int;
        let v = x.value() as int;
        crate::curve::lemma_order_below_prime();
        lemma_mul_mod_noop_left(v * v, v, p);
        lemma_add_mod_noop(v * v * v, 7, p);
        lemma_mod_twice(v * v * v, p);
        lemma_small_mod(7, p as nat);
    }
    r
}

/// Whether the coordinates of a point satisfy y^2 = x^3 + 7.
pub fn is_on_curve(point: &AffinePoint) -> (r: bool)
    requires
        point.x.wf(),
        point.y.wf(),
    ensures
        r == (fp((point.y.value() * point.y.value()) as int) == fp((
            point.x.value() * point.x.value() * point.x.value() + 7) as int,
        )),
{
    let lhs = y_squared(&point.x);
    let rhs = fe_mul(&point.y, &point.y);
    fe_eq(&lhs, &rhs)
}

/// A pair read as the fraction x / y; (x, y) here are numerator and
/// denominator.
pub open spec fn frac(p: AffinePoint) -> (int, int) {
    (p.x.value() as int, p.y.value() as int)
}

/// The difference of two fractions, unreduced: a/b - c/d = (ad - bc) / bd.
pub open spec fn frac_sub(a: (int, int), b: (int, int)) -> (int, int) {
    (fp(a.0 * b.1 - a.1 * b.0), fp(a.1 * b.1))
}

/// The product of two fractions.
pub open spec fn frac_mul(a: (int, int), b: (int, int)) -> (int, int) {
    (fp(a.0 * b.0), fp(a.1 * b.1))
}

/// The difference of two fractions `a - b`, each held as (numerator,
/// denominator) in the coordinates of a point.
pub fn projective_sub(a: &AffinePoint, b: &AffinePoint) -> (r: AffinePoint)
    requires
        a.x.wf(),
        a.y.wf(),
        b.x.wf(),
        b.y.wf(),
    ensures
        r.x.wf(),
        r.y.wf(),
        !r.infinity,
        frac(r) == frac_sub(frac(*a), frac(*b)),
{
    let t1 = fe_mul(&b.y, &a.x);
    let nb = fe_neg(&b.x);
    let t2 = fe_mul(&a.y, &nb);
    let x = fe_add(&t1, &t2);
    let y = fe_mul(&a.y, &b.y);
    proof {
        let p = crate::curve::field_prime() as int;
        let (ax, ay, bx, by) = (
            a.x.value() as int,
            a.y.value() as int,
            b.x.value() as int,
            b.y.value() as int,
        );
        lemma_mul_mod_noop_right(ay, -bx, p);
        assert(ay * -bx == -(ay * bx)) by (nonlinear_arith);
        lemma_add_mod_noop(by * ax, -(ay * bx), p);
        assert(by * ax == ax * by) by (nonlinear_arith);
        assert(ay * by == ay * by);
    }
    AffinePoint { x, y, infinity: false }
}

/// The product of two fractions, each held as (numerator, denominator) in
/// the coordinates of a point.
pub fn projective_mul(a: &AffinePoint, b: &AffinePoint) -> (r: AffinePoint)
    requires
        a.x.wf(),
        a.y.wf(),
        b.x.wf(),
        b.y.wf(),
    ensures
        r.x.wf(),
        r.y.wf(),
        !r.infinity,
        frac(r) == frac_mul(frac(*a), frac(*b)),
{
    AffinePoint { x: fe_mul(&a.x, &b.x), y: fe_mul(&a.y, &b.y), infinity: false }
}

/// The coordinates (X, Y, Z) of the projective sum of two finite points.
/// With dx = xb - xa and dy = yb - ya, the chord slope is l = dy / dx;
/// x3 = dy^2 - dx^2·(xa + xb) and y3 = (xa·dx^2 - x3)·dy - dx^3·ya are the
/// numerators of the sum's coordinates l^2 - xa - xb and l·(xa - x) - ya
/// over dx^2 and dx^3. Both are brought over the common denominator
/// Z = dx^5 (or over dx^2 when dx^2 = dx^3), so that for dx ≠ 0 the sum is
/// (X/Z, Y/Z).
pub open spec fn projective_sum(a: EcPoint, b: EcPoint) -> (int, int, int) {
    let dx = fp(b.x - a.x);
    let dy = fp(b.y - a.y);
    let d2 = fp(dx * dx);
    let d3 = fp(d2 * dx);
    let x3 = fp(dy * dy - d2 * a.x - d2 * b.x);
    let y3 = fp((a.x * d2 - x3) * dy - d3 * a.y);
    if d2 != d3 {
        (fp(x3 * d3), fp(y3 * d2), fp(d2 * d3))
    } else {
        (x3, y3, d2)
    }
}

/// fp(fp(x) - y) == fp(x - y), and likewise on the right and for products.
proof fn lemma_fp_noop(x: int, y: int)
    ensures
        fp(fp(x) - y) == fp(x - y),
        fp(x - fp(y)) == fp(x - y),
        fp(fp(x) * y) == fp(x * y),
        fp(x * fp(y)) == fp(x * y),
{
    let p = crate::curve::field_prime() as int;
    crate::curve::lemma_prime_odd();
    lemma_sub_mod_noop(x, y, p);
    lemma_sub_mod_noop(x % p, y, p);
    lemma_sub_mod_noop(x, y % p, p);
    lemma_mod_twice(x, p);
    lemma_mod_twice(y, p);
    lemma_mul_mod_noop_left(x, y, p);
    lemma_mul_mod_noop_right(x, y, p);
}

/// Adds two affine points in projective coordinates without inverting in
/// the field: (X/Z, Y/Z) is their chord sum.
pub fn projective_ec_add(a: &AffinePoint, b: &AffinePoint) -> (r: JacobianPoint)
    requires
        a.wf(),
        b.wf(),
    ensures
        r.x.wf(),
        r.y.wf(),
        r.z.wf(),
        (r.x.value() as int, r.y.value() as int, r.z.value() as int) == projective_sum(
            EcPoint { x: a.x.value() as int, y: a.y.value() as int, inf: false },
            EcPoint { x: b.x.value() as int, y: b.y.value() as int, inf: false },
        ),
{
    let one = fe_from_u8(1);
    let ly = fe_add(&b.y, &fe_neg(&a.y));
    let lx = fe_add(&b.x, &fe_neg(&a.x));
    let l = affine_composer(&ly, &lx);
    let s1 = projective_mul(&l, &l);
    let s1 = projective_sub(&s1, &affine_composer(&a.x, &one));
    let s1 = projective_sub(&s1, &affine_composer(&b.x, &one));
    let s2 = projective_sub(&affine_composer(&a.x, &one), &s1);
    let s2 = projective_mul(&s2, &l);
    let s2 = projective_sub(&s2, &affine_composer(&a.y, &one));
    proof {
        let p = crate::curve::field_prime() as int;
        lemma_add_mod_noop(b.y.value() as int, -(a.y.value() as int), p);
        lemma_add_mod_noop(b.x.value() as int, -(a.x.value() as int), p);
        lemma_mod_twice(b.y.value() - a.y.value(), p);
        lemma_mod_twice(b.x.value() - a.x.value(), p);
        lemma_small_mod(b.y.value(), p as nat);
        lemma_small_mod(b.x.value(), p as nat);
        lemma_small_mod(a.x.value(), p as nat);
        lemma_small_mod(a.y.value(), p as nat);
        let (ax, ay, bx) = (a.x.value() as int, a.y.value() as int, b.x.value() as int);
        let dx = fp(bx - ax);
        let dy = fp(b.y.value() - ay);
        let d2 = fp(dx * dx);
        let d3 = fp(d2 * dx);
        let x3 = fp(dy * dy - d2 * ax - d2 * bx);
        assert(frac(l) == (dy, dx));
        lemma_small_mod(d2 as nat, p as nat);
        lemma_small_mod(d3 as nat, p as nat);
        lemma_fp_noop(dy * dy, d2 * ax);
        lemma_fp_noop(dy * dy - d2 * ax, d2 * bx);
        assert(fp(dy * dy) * 1 == fp(dy * dy));
        assert(fp(dy * dy - d2 * ax) * 1 == fp(dy * dy - d2 * ax));
        assert(frac(s1) == (x3, d2));
        assert(ax * d2 - 1 * x3 == ax * d2 - x3);
        lemma_fp_noop(ax * d2 - x3, dy);
        assert(fp(fp((ax * d2 - x3)) * dy) * 1 == fp((ax * d2 - x3) * dy));
        lemma_fp_noop((ax * d2 - x3) * dy, d3 * ay);
        assert(frac(s2) == (fp((ax * d2 - x3) * dy - d3 * ay), d3));
    }
    if !fe_eq(&s1.y, &s2.y) {
        JacobianPoint { x: fe_mul(&s1.x, &s2.y), y: fe_mul(&s2.x, &s1.y), z: fe_mul(&s1.y, &s2.y) }
    } else {
        JacobianPoint { x: s1.x, y: s2.x, z: s1.y }
    }
}

/// The affine point (X/Z^2, Y/Z^3) of Jacobian coordinates.
pub fn jacobian_to_affine(j: &JacobianPoint) -> (r: AffinePoint)
    requires
        j.x.wf(),
        j.y.wf(),
        j.z.wf(),
    ensures
        r.x.wf(),
        r.y.wf(),
        !r.infinity,
        r.x.value() == fp(j.x.value() * fp(fp_inv(j.z.value() as int) * fp_inv(j.z.value() as int))),
        r.y.value() == fp(j.y.value() * fp(fp(fp_inv(j.z.value() as int) * fp_inv(j.z.value() as int)) * fp_inv(j.z.value() as int))),
{
    let zi = fe_inv(&j.z);
    let z2 = fe_mul(&zi, &zi);
    let z3 = fe_mul(&z2, &zi);
    AffinePoint { x: fe_mul(&j.x, &z2), y: fe_mul(&j.y, &z3), infinity: false }
}

/// The affine point (X·zi, Y·zi) of projective coordinates, given the
/// inverse zi of Z.
pub fn projective_to_affine(j: &JacobianPoint, inverse_z: &FieldElement) -> (r: AffinePoint)
    requires
        j.x.wf(),
        j.y.wf(),
        inverse_z.wf(),
    ensures
        r.x.wf(),
        r.y.wf(),
        !r.infinity,
        r.x.value() == fp((j.x.value() * inverse_z.value()) as int),
        r.y.value() == fp((j.y.value() * inverse_z.value()) as int),
{
    AffinePoint { x: fe_mul(&j.x, inverse_z), y: fe_mul(&j.y, inverse_z), infinity: false }
}

} // verus!
