//! Multilinear-extension representations: a dense evaluation table over all of
//! {0,1}^k, and a sparse index-to-value table over a possibly larger variable
//! count.

use vstd::prelude::*;
use crate::field::Scalar;
use crate::field::r_mod;
use ark_ff::BigInt;
use ark_ff::PrimeField;
use ark_poly::DenseMultilinearExtension;
use ark_poly::SparseMultilinearExtension;
use ark_test_curves::bls12_381::Fr;

verus! {

/// 2^e as a mathematical integer.
pub open spec fn pow2(e: nat) -> nat {
    vstd::arithmetic::power2::pow2(e)
}

/// A multilinear extension in dense form: the ordered table of its values on
/// every point of the Boolean hypercube, the point read as the big-endian bit
/// vector of the index.
#[derive(Clone, Debug)]
pub struct MlePoly {
    /// Number of variables.
    pub num_vars: usize,
    /// The 2^num_vars evaluations.
    pub evaluations: Vec<Scalar>,
}

impl View for MlePoly {
    type V = Seq<int>;

    /// The table as the sequence of the integers its entries represent.
    open spec fn view(&self) -> Seq<int> {
        self.evaluations@.map(|_i: int, s: Scalar| s@)
    }
}

impl MlePoly {
    /// The table holds exactly 2^num_vars canonical field elements.
    pub open spec fn wf(self) -> bool {
        &&& self.evaluations@.len() == pow2(self.num_vars as nat)
        &&& forall|i: int|
            0 <= i < self.evaluations@.len() ==> (#[trigger] self.evaluations@[i]).wf()
    }
}

/// A multilinear extension in sparse form: the entries that may be nonzero,
/// listed by strictly increasing index below 2^num_vars.
#[derive(Clone, Debug)]
pub struct SparsePoly {
    /// Number of variables.
    pub num_vars: usize,
    /// The (index, value) pairs, by strictly increasing index.
    pub entries: Vec<(usize, Scalar)>,
}

impl View for SparsePoly {
    type V = Seq<(int, int)>;

    /// The entry list as pairs of index and represented integer.
    open spec fn view(&self) -> Seq<(int, int)> {
        self.entries@.map(|_i: int, e: (usize, Scalar)| (e.0 as int, e.1@))
    }
}

impl SparsePoly {
    /// Indices are strictly increasing (hence distinct) and in range, and all
    /// values are canonical field elements.
    pub open spec fn wf(self) -> bool {
        &&& forall|i: int|
            0 <= i < self.entries@.len() ==> (#[trigger] self.entries@[i]).0 < pow2(
                self.num_vars as nat,
            )
        &&& forall|i: int|
            0 <= i < self.entries@.len() ==> (#[trigger] self.entries@[i]).1.wf()
        &&& forall|i: int, j: int|
            0 <= i < j < self.entries@.len() ==> (#[trigger] self.entries@[i]).0 < (
            #[trigger] self.entries@[j]).0
    }
}

impl MlePoly {
    /// An identical copy of the table.
    pub fn duplicate(&self) -> (r: MlePoly)
        ensures
            r.num_vars == self.num_vars,
            r.evaluations@ == self.evaluations@,
            r@ == self@,
    {
        let mut evals: Vec<Scalar> = Vec::new();
        let mut i: usize = 0;
        while i < self.evaluations.len()
            invariant
                i <= self.evaluations@.len(),
                evals@.len() == i,
                forall|k: int| 0 <= k < i ==> #[trigger] evals@[k] == self.evaluations@[k],
            decreases self.evaluations@.len() - i,
        {
            evals.push(self.evaluations[i]);
            i = i + 1;
        }
        proof {
            assert(evals@ =~= self.evaluations@);
        }
        MlePoly { num_vars: self.num_vars, evaluations: evals }
    }
}

/// A table in the substrate's own dense-extension form, carried opaquely
/// between the trusted bridge functions; its type's declaration is refused
/// here, so it sits in a private field.
#[verifier::external_body]
pub struct ArkDense {
    pub(crate) inner: DenseMultilinearExtension<Fr>,
}

/// Relies on `DenseMultilinearExtension::from_evaluations_vec`: re-expresses
/// a well-formed table in the substrate's dense form, value by value.
#[verifier::external_body]
pub(crate) fn to_ark_dense(p: &MlePoly) -> (r: ArkDense)
    requires
        p.wf(),
{
    let evs = p.evaluations.iter().map(|s| Fr::from_bigint(BigInt(s.limbs())).unwrap()).collect();
    ArkDense { inner: DenseMultilinearExtension::from_evaluations_vec(p.num_vars, evs) }
}

/// An entry list in the substrate's own sparse-extension form, carried
/// opaquely between the trusted bridge functions; its type's declaration is
/// refused here, so it sits in a private field.
#[verifier::external_body]
pub struct ArkSparse {
    pub(crate) inner: SparseMultilinearExtension<Fr>,
}

/// Relies on `SparseMultilinearExtension::from_evaluations`: re-expresses a
/// well-formed entry list in the substrate's sparse form, entry by entry.
#[verifier::external_body]
pub(crate) fn to_ark_sparse(p: &SparsePoly) -> (r: ArkSparse)
    requires
        p.wf(),
        p.num_vars < 64,
{
    let cv = |s: &Scalar| Fr::from_bigint(BigInt(s.limbs())).unwrap();
    let ent = p.entries.iter().map(|e| (e.0, cv(&e.1))).collect::<Vec<_>>();
    ArkSparse { inner: SparseMultilinearExtension::from_evaluations(p.num_vars, &ent) }
}

/// Every entry of a well-formed dense table is below the field order.
pub proof fn lemma_mle_entries_canonical(p: MlePoly)
    requires
        p.wf(),
    ensures
        forall|i: int| 0 <= i < p@.len() ==> 0 <= #[trigger] p@[i] < r_mod(),
{
    assert forall|i: int| 0 <= i < p@.len() implies 0 <= #[trigger] p@[i] < r_mod() by {
        assert(p@[i] == p.evaluations@[i]@);
    }
}

} // verus!
