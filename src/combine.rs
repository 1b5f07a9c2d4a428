//! Combining the outputs of several participants with Lagrange weights.
use crate::curve::{
    affine_infinity, ec_add, ec_infinity, ec_mul, fe_canonical, scalar_canonical, AffinePoint,
    EcPoint, Scalar,
};
use crate::error::VrfError;
use crate::gadget::{ecmult, is_on_curve, point_add};
use crate::vrf::{finite_on_curve, output_of, output_scalar};
use vstd::prelude::*;

verus! {

/// The weighted sum Σ w_i·gamma_i of the shares, in order.
pub open spec fn weighted_sum(shares: Seq<(AffinePoint, Scalar)>) -> EcPoint
    decreases shares.len(),
{
    if shares.len() == 0 {
        ec_infinity()
    } else {
        ec_add(weighted_sum(shares.drop_last()), ec_mul(shares.last().1.value(), shares.last().0@))
    }
}

/// A share's encodings are canonical: coordinates below the field prime,
/// the weight below the group order.
pub open spec fn share_encoding_ok(share: (AffinePoint, Scalar)) -> bool {
    share.0.x.wf() && share.0.y.wf() && share.1.wf()
}

/// Combines participants' gamma points with their weights: the output of
/// Σ w_i·gamma_i. Non-canonical encodings, then points off the curve, are
/// errors.
pub fn combine(shares: &Vec<(AffinePoint, Scalar)>) -> (r: Result<Scalar, VrfError>)
    ensures
        (exists|i: int| 0 <= i < shares@.len() && !share_encoding_ok(#[trigger] shares@[i]))
            <==> r == Err::<Scalar, VrfError>(VrfError::MalformedEncoding),
        (forall|i: int| 0 <= i < shares@.len() ==> share_encoding_ok(#[trigger] shares@[i]))
            && (exists|i: int| 0 <= i < shares@.len() && !finite_on_curve(#[trigger] shares@[i].0))
            <==> r == Err::<Scalar, VrfError>(VrfError::InvalidPoint),
        r is Err ==> r->Err_0 == VrfError::MalformedEncoding || r->Err_0 == VrfError::InvalidPoint,
        r is Ok ==> r->Ok_0.wf() && r->Ok_0.value() == output_of(weighted_sum(shares@)),
{
    let mut i: usize = 0;
    while i < shares.len()
        invariant
            0 <= i <= shares@.len(),
            forall|j: int| 0 <= j < i ==> share_encoding_ok(#[trigger] shares@[j]),
        decreases shares@.len() - i,
    {
        let (g, w) = shares[i];
        if !(fe_canonical(&g.x) && fe_canonical(&g.y) && scalar_canonical(&w)) {
            return Err(VrfError::MalformedEncoding);
        }
        i = i + 1;
    }
    let mut i: usize = 0;
    while i < shares.len()
        invariant
            0 <= i <= shares@.len(),
            forall|j: int| 0 <= j < shares@.len() ==> share_encoding_ok(#[trigger] shares@[j]),
            forall|j: int| 0 <= j < i ==> finite_on_curve(#[trigger] shares@[j].0),
        decreases shares@.len() - i,
    {
        let (g, _) = shares[i];
        if g.infinity || !is_on_curve(&g) {
            return Err(VrfError::InvalidPoint);
        }
        i = i + 1;
    }
    let mut sum = affine_infinity();
    let mut i: usize = 0;
    while i < shares.len()
        invariant
            0 <= i <= shares@.len(),
            forall|j: int| 0 <= j < shares@.len() ==> share_encoding_ok(#[trigger] shares@[j]),
            forall|j: int| 0 <= j < shares@.len() ==> finite_on_curve(#[trigger] shares@[j].0),
            sum.valid(),
            sum@ == weighted_sum(shares@.subrange(0, i as int)),
        decreases shares@.len() - i,
    {
        let (g, w) = shares[i];
        assert(finite_on_curve(shares@[i as int].0));
        let term = ecmult(&g, &w);
        sum = point_add(&sum, &term);
        assert(shares@.subrange(0, i + 1).drop_last() =~= shares@.subrange(0, i as int));
        i = i + 1;
    }
    assert(shares@.subrange(0, shares@.len() as int) =~= shares@);
    Ok(output_scalar(&sum))
}

/// The weighted sum of two shares is w_1·gamma_1 + w_2·gamma_2.
pub proof fn lemma_combine_two(g1: AffinePoint, w1: Scalar, g2: AffinePoint, w2: Scalar)
    ensures
        weighted_sum(seq![(g1, w1), (g2, w2)]) == ec_add(ec_mul(w1.value(), g1@), ec_mul(w2.value(), g2@)),
{
    let s = seq![(g1, w1), (g2, w2)];
    assert(s.drop_last() =~= seq![(g1, w1)]);
    assert(s.drop_last().drop_last() =~= Seq::<(AffinePoint, Scalar)>::empty());
    reveal_with_fuel(weighted_sum, 3);
}

/// A share of weight zero adds nothing to the sum.
pub proof fn lemma_combine_zero_weight(shares: Seq<(AffinePoint, Scalar)>, g: AffinePoint, w: Scalar)
    requires
        w.value() == 0,
    ensures
        weighted_sum(shares.push((g, w))) == weighted_sum(shares),
{
    assert(shares.push((g, w)).drop_last() =~= shares);
    reveal_with_fuel(ec_mul, 1);
}

/// A share of weight one adds its point itself.
pub proof fn lemma_combine_unit_weight(shares: Seq<(AffinePoint, Scalar)>, g: AffinePoint, w: Scalar)
    requires
        w.value() == 1,
    ensures
        weighted_sum(shares.push((g, w))) == ec_add(weighted_sum(shares), g@),
{
    assert(shares.push((g, w)).drop_last() =~= shares);
    reveal_with_fuel(ec_mul, 2);
}

} // verus!
