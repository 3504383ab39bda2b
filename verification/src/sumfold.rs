//! The fold/verify protocol: batching many sum-of-products claims over dense
//! multilinear extensions into one randomly selected claim, backed by an
//! outer sumcheck proof from the generic sumcheck engine.

pub mod fj_poly;
pub mod q_poly;
pub mod utils;

use vstd::prelude::*;
use crate::field::Scalar;
use crate::field::r_mod;
use crate::field::scalar_add;
use crate::field::lemma_scalar_eq_iff_view_eq;
use crate::mle::MlePoly;
use crate::mle::pow2;
use crate::sumfold::fj_poly::build_fj_polynomial;
use crate::sumfold::fj_poly::selector_of;
use crate::sumfold::fj_poly::tables_of;
use crate::sumfold::q_poly::build_Q_polynomial;
use crate::sumfold::utils::log2_exact;
use crate::sumfold::utils::pow2_exec;
use crate::sumfold::utils::prod_mod;
use crate::sumfold::utils::product_f;
use crate::sumfold::utils::sample_index;
use crate::sumfold::utils::scalar_views;
use crate::sumfold::utils::scalars_wf;
use ark_ff::PrimeField;
use ark_test_curves::bls12_381::Fr;
use ark_std::rand::rngs::StdRng;
use ark_linear_sumcheck::ml_sumcheck::MLSumcheck;
use ark_linear_sumcheck::ml_sumcheck::protocol::ListOfProductsOfPolynomials;
use ark_linear_sumcheck::ml_sumcheck::protocol::prover::ProverMsg;

verus! {

/// The reasons a fold or a verification can fail.
#[derive(Clone, Copy, PartialEq, Eq, Structural, Debug)]
pub enum Error {
    /// Instances disagree on their component count or variable count.
    DimensionMismatch,
    /// A selector or indicator input count is not a power of two.
    NotPowerOfTwo,
    /// The indicator polynomial has a nonzero value off the selected index.
    InvalidRho,
    /// A claimed sum disagrees with its recomputation, is degenerately zero,
    /// or the outer sumcheck rejected it.
    InvalidSum,
    /// The generic sumcheck engine reported failure while proving.
    SubProtocolRejected,
}

/// The combining function of an instance, as a tagged value rather than an
/// opaque callable, so prover and verifier agree on what is being proved.
/// The outer sumcheck engine supports product claims, so the product is the
/// combinator offered.
#[derive(Clone, Copy, PartialEq, Eq, Structural, Debug)]
pub enum Combinator {
    /// Multiply the component values.
    Product,
}

/// What a combinator computes from one point's component values.
pub open spec fn combinator_apply(c: Combinator, vals: Seq<int>) -> int {
    match c {
        Combinator::Product => prod_mod(vals),
    }
}

/// Applies a combinator to the component values at one grid point.
pub fn apply_combinator(c: &Combinator, vals: &Vec<Scalar>) -> (r: Scalar)
    requires
        scalars_wf(vals@),
    ensures
        r.wf(),
        r@ == combinator_apply(*c, scalar_views(vals@)),
{
    match c {
        Combinator::Product => product_f(vals),
    }
}

/// One claim to be folded: a combining function and the ordered component
/// extensions it is applied to, all of the same arity.
#[allow(non_snake_case)]
#[derive(Clone, Debug)]
pub struct SumFoldInstance {
    /// The combining function applied to the component values.
    pub F_func: Combinator,
    /// The component multilinear extensions g_0, g_1, ...
    pub g_vec: Vec<MlePoly>,
}

/// The component values of the tables `g` at grid point `x`.
pub open spec fn point_vals(g: Seq<Seq<int>>, x: int) -> Seq<int> {
    Seq::new(g.len(), |j: int| g[j][x])
}

/// The sum modulo the field order of the combinator applied to the component
/// tables at the `cnt` grid points starting at `base`.
pub open spec fn sum_terms(c: Combinator, g: Seq<Seq<int>>, base: int, cnt: nat) -> int
    decreases cnt,
{
    if cnt == 0 {
        0
    } else {
        (sum_terms(c, g, base, (cnt - 1) as nat) + combinator_apply(
            c,
            point_vals(g, base + cnt - 1),
        )) % r_mod()
    }
}

/// The honest sum of an instance with `l`-variable components: its combinator
/// applied pointwise over the whole grid.
pub open spec fn instance_sum(inst: SumFoldInstance, l: nat) -> int {
    sum_terms(inst.F_func, tables_of(inst.g_vec@), 0, pow2(l))
}

/// All components of the instance are well formed and have `l` variables.
pub open spec fn inst_wf(inst: SumFoldInstance, l: nat) -> bool {
    forall|j: int|
        0 <= j < inst.g_vec@.len() ==> (#[trigger] inst.g_vec@[j]).wf()
            && inst.g_vec@[j].num_vars == l
}

/// The variable count the instance list shares.
pub open spec fn shared_l(instances: Seq<SumFoldInstance>) -> nat {
    instances[0].g_vec@[0].num_vars as nat
}

/// The instance list is acceptable input for a fold: nonempty, with at least
/// one component of at least one variable, every component well formed with
/// the shared arity, and one shared combinator.
pub open spec fn instances_input_ok(instances: Seq<SumFoldInstance>) -> bool {
    &&& instances.len() >= 1
    &&& instances[0].g_vec@.len() >= 1
    &&& shared_l(instances) >= 1
    &&& forall|i: int|
        0 <= i < instances.len() ==> inst_wf(#[trigger] instances[i], shared_l(instances))
    &&& forall|i: int|
        0 <= i < instances.len() ==> (#[trigger] instances[i]).F_func == instances[0].F_func
}

/// Every instance has as many components as the first.
pub open spec fn same_t(instances: Seq<SumFoldInstance>) -> bool {
    forall|i: int|
        0 <= i < instances.len() ==> (#[trigger] instances[i]).g_vec@.len()
            == instances[0].g_vec@.len()
}

/// The `j`-th component table of every instance, in instance order.
pub open spec fn column_tables(instances: Seq<SumFoldInstance>, j: int) -> Seq<Seq<int>> {
    Seq::new(instances.len(), |i: int| instances[i].g_vec@[j]@)
}

/// The generic sumcheck engine's input format: a weighted list of products
/// of dense multilinear extensions over the substrate's field type. Held in
/// a private field because the engine type's own declaration is refused
/// here; only the trusted bridge functions look inside.
#[verifier::external_body]
pub struct EngineInput {
    inner: ListOfProductsOfPolynomials<Fr>,
}

/// The engine prover's round messages, held in a private field because the
/// engine type's own declaration is refused here; only the trusted bridge
/// functions look inside.
#[verifier::external_body]
pub struct EngineMsgs {
    msgs: Vec<ProverMsg<Fr>>,
}

/// The outer sumcheck proof: the engine's round messages together with the
/// shape the engine produced them in — one message per variable, each
/// message listing one more evaluation than the product has multiplicands.
/// The fields are crate-private so that every value comes from the proving
/// bridge, which sets the counts consistently with the held messages; the
/// verifying bridge needs that consistency to meet the engine's shape
/// expectations.
pub struct EngineProof {
    pub(crate) rounds: usize,
    pub(crate) multiplicands: usize,
    pub(crate) msgs: EngineMsgs,
}

impl EngineProof {
    /// The number of round messages the proof was produced with.
    pub open(crate) spec fn rounds_of(self) -> int {
        self.rounds as int
    }

    /// The multiplicand count the proof was produced with.
    pub open(crate) spec fn multiplicands_of(self) -> int {
        self.multiplicands as int
    }
}

/// A fold's output: the indicator polynomial, the selector polynomials, the
/// original instances, and the outer sumcheck proof for the selected
/// instance. Immutable once produced.
#[allow(non_snake_case)]
pub struct SumFoldProof {
    /// Dense extension that is zero except at the selected index, where it
    /// holds the selected instance's honest sum.
    pub Q_poly: MlePoly,
    /// One selector polynomial per component slot, concatenating that slot
    /// across all instances.
    pub fj_poly: Vec<MlePoly>,
    /// The folded instances, kept for verification against the raw tables.
    pub instances: Vec<SumFoldInstance>,
    /// The outer sumcheck proof from the generic engine.
    pub proof: EngineProof,
}

impl SumFoldProof {
    /// Number of selector variables: the instance count is 2^nu.
    pub open spec fn nu(self) -> nat {
        self.Q_poly.num_vars as nat
    }

    /// Number of component variables.
    pub open spec fn l(self) -> nat {
        (self.fj_poly@[0].num_vars - self.Q_poly.num_vars) as nat
    }

    /// Structural well-formedness of a proof object, as the data model fixes
    /// it: shapes agree across the indicator, the selectors, the instances
    /// and the outer proof.
    pub open spec fn wf(self) -> bool {
        &&& self.Q_poly.wf()
        &&& self.fj_poly@.len() >= 1
        &&& self.fj_poly@[0].num_vars >= self.Q_poly.num_vars
        &&& self.l() >= 1
        &&& forall|j: int|
            0 <= j < self.fj_poly@.len() ==> (#[trigger] self.fj_poly@[j]).wf()
                && self.fj_poly@[j].num_vars == self.l() + self.nu()
        &&& self.instances@.len() == pow2(self.nu())
        &&& forall|i: int|
            0 <= i < self.instances@.len() ==> (#[trigger] self.instances@[i]).g_vec@.len()
                == self.fj_poly@.len()
        &&& forall|i: int|
            0 <= i < self.instances@.len() ==> inst_wf(#[trigger] self.instances@[i], self.l())
        &&& forall|i: int|
            0 <= i < self.instances@.len() ==> (#[trigger] self.instances@[i]).F_func
                == self.instances@[0].F_func
        &&& self.proof.rounds_of() == self.l()
        &&& self.proof.multiplicands_of() == self.fj_poly@.len()
    }

    /// The sum the verifier recomputes from the selector polynomials for the
    /// selected index: their block of 2^l entries starting at rho * 2^l.
    pub open spec fn fj_sum(self, rho: int) -> int {
        sum_terms(
            self.instances@[0].F_func,
            tables_of(self.fj_poly@),
            rho * pow2(self.l()),
            pow2(self.l()),
        )
    }

    /// The sum the verifier recomputes from the selected instance's raw
    /// component tables.
    pub open spec fn raw_sum(self, rho: int) -> int {
        sum_terms(
            self.instances@[0].F_func,
            tables_of(self.instances@[rho].g_vec@),
            0,
            pow2(self.l()),
        )
    }

    /// The outcome of the verifier's own checks for a selected index, before
    /// the outer sumcheck engine is consulted: the first failed check names
    /// the error, `None` means every check passed. Structural violations of
    /// the indicator give `InvalidRho`; a value mismatch, a degenerate zero
    /// sum or a raw-table disagreement give `InvalidSum`.
    pub open spec fn structure_verdict(self, rho: int) -> Option<Error> {
        if exists|i: int| 0 <= i < self.Q_poly@.len() && i != rho && #[trigger] self.Q_poly@[i] != 0 {
            Some(Error::InvalidRho)
        } else if self.Q_poly@[rho] != self.fj_sum(rho) {
            Some(Error::InvalidSum)
        } else if self.fj_sum(rho) == 0 {
            Some(Error::InvalidSum)
        } else if self.raw_sum(rho) != self.fj_sum(rho) {
            Some(Error::InvalidSum)
        } else {
            None
        }
    }
}

/// The relation between a fold's input, the index the randomness source
/// selected, and the proof the fold returned: the selectors concatenate the
/// instances slot by slot, and the indicator holds exactly the selected
/// instance's honest sum at the selected index.
pub open spec fn fold_ok(instances: Seq<SumFoldInstance>, rho: int, p: SumFoldProof) -> bool {
    &&& p.wf()
    &&& p.instances@ == instances
    &&& p.fj_poly@.len() == instances[0].g_vec@.len()
    &&& pow2(p.nu()) == instances.len()
    &&& p.l() == shared_l(instances)
    &&& forall|j: int|
        0 <= j < p.fj_poly@.len() ==> selector_of(
            column_tables(instances, j),
            pow2(shared_l(instances)),
            (#[trigger] p.fj_poly@[j])@,
        )
    &&& p.Q_poly@[rho] == instance_sum(instances[rho], shared_l(instances))
    &&& forall|i: int|
        0 <= i < p.Q_poly@.len() && i != rho ==> #[trigger] p.Q_poly@[i] == 0
}

/// Computes the sum of the combinator over `cnt` grid points starting at
/// `base`, reading each component table at the same positions.
pub fn compute_sum(c: &Combinator, g_vec: &Vec<MlePoly>, base: usize, cnt: usize) -> (r: Scalar)
    requires
        forall|j: int| 0 <= j < g_vec@.len() ==> (#[trigger] g_vec@[j]).wf(),
        forall|j: int|
            0 <= j < g_vec@.len() ==> base + cnt <= (#[trigger] g_vec@[j]).evaluations@.len(),
    ensures
        r.wf(),
        r@ == sum_terms(*c, tables_of(g_vec@), base as int, cnt as nat),
{
    let t = g_vec.len();
    let mut acc = Scalar::zero();
    let mut i: usize = 0;
    while i < cnt
        invariant
            i <= cnt,
            t == g_vec@.len(),
            forall|j: int| 0 <= j < g_vec@.len() ==> (#[trigger] g_vec@[j]).wf(),
            forall|j: int|
                0 <= j < g_vec@.len() ==> base + cnt <= (#[trigger] g_vec@[j]).evaluations@.len(),
            acc.wf(),
            acc@ == sum_terms(*c, tables_of(g_vec@), base as int, i as nat),
        decreases cnt - i,
    {
        let mut vals: Vec<Scalar> = Vec::new();
        let mut j: usize = 0;
        while j < t
            invariant
                j <= t,
                i < cnt,
                t == g_vec@.len(),
                forall|jj: int| 0 <= jj < g_vec@.len() ==> (#[trigger] g_vec@[jj]).wf(),
                forall|jj: int|
                    0 <= jj < g_vec@.len() ==> base + cnt <= (
                    #[trigger] g_vec@[jj]).evaluations@.len(),
                vals@.len() == j,
                forall|jj: int|
                    0 <= jj < j ==> #[trigger] vals@[jj] == g_vec@[jj].evaluations@[base + i],
            decreases t - j,
        {
            let cap = g_vec[j].evaluations.len();
            proof {
                assert(base + cnt <= cap);
            }
            vals.push(g_vec[j].evaluations[base + i]);
            j = j + 1;
        }
        let term = apply_combinator(c, &vals);
        proof {
            assert(scalar_views(vals@) =~= point_vals(tables_of(g_vec@), base + i)) by {
                assert forall|jj: int| 0 <= jj < t implies scalar_views(vals@)[jj] == point_vals(
                    tables_of(g_vec@),
                    base + i,
                )[jj] by {
                    assert(vals@[jj] == g_vec@[jj].evaluations@[base + i]);
                }
            }
        }
        acc = scalar_add(&acc, &term);
        i = i + 1;
    }
    acc
}

/// Two table windows that agree pointwise have the same sum of combinator
/// values.
pub proof fn lemma_sum_terms_window(
    c: Combinator,
    ga: Seq<Seq<int>>,
    basea: int,
    gb: Seq<Seq<int>>,
    baseb: int,
    cnt: nat,
)
    requires
        ga.len() == gb.len(),
        forall|j: int, x: int|
            0 <= j < ga.len() && 0 <= x < cnt ==> #[trigger] ga[j][basea + x] == #[trigger] gb[j][baseb
                + x],
    ensures
        sum_terms(c, ga, basea, cnt) == sum_terms(c, gb, baseb, cnt),
    decreases cnt,
{
    if cnt > 0 {
        lemma_sum_terms_window(c, ga, basea, gb, baseb, (cnt - 1) as nat);
        assert(point_vals(ga, basea + cnt - 1) =~= point_vals(gb, baseb + cnt - 1)) by {
            assert forall|j: int| 0 <= j < ga.len() implies #[trigger] point_vals(
                ga,
                basea + cnt - 1,
            )[j] == point_vals(gb, baseb + cnt - 1)[j] by {
                assert(ga[j][basea + (cnt - 1)] == gb[j][baseb + (cnt - 1)]);
            }
        }
    }
}

impl SumFoldProof {
    /// Relies on `ListOfProductsOfPolynomials::new` and `add_product` of the
    /// generic sumcheck engine: wraps the component tables as the engine's
    /// single product with coefficient one over their shared variable count.
    #[verifier::external_body]
    pub fn generate_list_of_poly(g_vec: &Vec<MlePoly>) -> (r: EngineInput)
        requires
            g_vec@.len() >= 1,
            forall|j: int| 0 <= j < g_vec@.len() ==> (#[trigger] g_vec@[j]).wf(),
            forall|j: int|
                0 <= j < g_vec@.len() ==> (#[trigger] g_vec@[j]).num_vars == g_vec@[0].num_vars,
    {
        let mut poly = ListOfProductsOfPolynomials::new(g_vec[0].num_vars);
        let ps: Vec<std::rc::Rc<ark_poly::DenseMultilinearExtension<Fr>>> =
            g_vec.iter().map(|g| std::rc::Rc::new(crate::mle::to_ark_dense(g).inner)).collect();
        poly.add_product(ps, ark_ff::One::one());
        EngineInput { inner: poly }
    }

    /// Relies on `MLSumcheck::prove` of the generic sumcheck engine: a
    /// Fiat-Shamir sumcheck proof of the product claim over the component
    /// tables, one round message per variable, each message holding one
    /// more evaluation than there are multiplicands. The engine's only
    /// failure path feeds its transcript, which writes into an in-memory
    /// buffer and cannot fail, so a proof is always returned.
    #[verifier::external_body]
    pub fn prove_outer_sumcheck(g_vec: &Vec<MlePoly>) -> (r: EngineProof)
        requires
            g_vec@.len() >= 1,
            g_vec@[0].num_vars >= 1,
            forall|j: int| 0 <= j < g_vec@.len() ==> (#[trigger] g_vec@[j]).wf(),
            forall|j: int|
                0 <= j < g_vec@.len() ==> (#[trigger] g_vec@[j]).num_vars == g_vec@[0].num_vars,
        ensures
            r.rounds_of() == g_vec@[0].num_vars,
            r.multiplicands_of() == g_vec@.len(),
    {
        let poly = Self::generate_list_of_poly(g_vec);
        let msgs = MLSumcheck::prove(&poly.inner).unwrap();
        EngineProof {
            rounds: g_vec[0].num_vars,
            multiplicands: g_vec.len(),
            msgs: EngineMsgs { msgs },
        }
    }

    /// Relies on `MLSumcheck::verify` of the generic sumcheck engine: its
    /// verdict on the claimed sum against the proof's round messages, under
    /// the same Fiat-Shamir transcript the prover used. The verdict is the
    /// engine's own; nothing more is promised of it. The engine reads one
    /// message per variable with one more evaluation each than the product
    /// has multiplicands, so the proof's counts must match the tables here;
    /// the proving bridge keeps them consistent with the held messages.
    #[verifier::external_body]
    pub fn verify_outer_sumcheck(
        g_vec: &Vec<MlePoly>,
        proof: &EngineProof,
        claim: &Scalar,
    ) -> (r: bool)
        requires
            g_vec@.len() >= 1,
            g_vec@[0].num_vars >= 1,
            proof.rounds_of() == g_vec@[0].num_vars,
            proof.multiplicands_of() == g_vec@.len(),
            claim.wf(),
            forall|j: int| 0 <= j < g_vec@.len() ==> (#[trigger] g_vec@[j]).wf(),
            forall|j: int|
                0 <= j < g_vec@.len() ==> (#[trigger] g_vec@[j]).num_vars == g_vec@[0].num_vars,
    {
        let poly = Self::generate_list_of_poly(g_vec);
        let c = Fr::from_bigint(ark_ff::BigInt(claim.limbs())).unwrap();
        MLSumcheck::verify(&poly.inner.info(), c, &proof.msgs.msgs).is_ok()
    }
}


impl SumFoldProof {
    /// Folds the instances with an already-drawn selection index: builds the
    /// selector polynomials slot by slot, computes the selected instance's
    /// honest sum, places it in the indicator polynomial, and proves the
    /// selected claim with the outer sumcheck engine.
    pub fn sumfold_with_rho(instances: Vec<SumFoldInstance>, rho: usize) -> (r: Result<
        SumFoldProof,
        Error,
    >)
        requires
            instances_input_ok(instances@),
            (rho as int) < instances@.len(),
        ensures
            match r {
                Ok(p) => same_t(instances@) && fold_ok(instances@, rho as int, p),
                Err(Error::DimensionMismatch) => !same_t(instances@),
                Err(Error::NotPowerOfTwo) => same_t(instances@) && (forall|k: nat|
                    pow2(k) != instances@.len()),
                Err(_) => false,
            },
    {
        let n = instances.len();
        let t = instances[0].g_vec.len();
        let mut i: usize = 1;
        while i < n
            invariant
                1 <= i <= n,
                n == instances@.len() >= 1,
                t == instances@[0].g_vec@.len(),
                forall|k: int| 0 <= k < i ==> (#[trigger] instances@[k]).g_vec@.len() == t,
            decreases n - i,
        {
            if instances[i].g_vec.len() != t {
                return Err(Error::DimensionMismatch);
            }
            i = i + 1;
        }
        let nu = match log2_exact(n) {
            Some(nu) => nu,
            None => {
                return Err(Error::NotPowerOfTwo);
            },
        };
        let l = instances[0].g_vec[0].num_vars;
        let size = instances[0].g_vec[0].evaluations.len();
        let mut fjs: Vec<MlePoly> = Vec::new();
        let mut j: usize = 0;
        while j < t
            invariant
                j <= t,
                n == instances@.len() >= 1,
                t == instances@[0].g_vec@.len() >= 1,
                instances_input_ok(instances@),
                same_t(instances@),
                l == shared_l(instances@),
                pow2(nu as nat) == n,
                fjs@.len() == j,
                forall|jj: int|
                    0 <= jj < j ==> (#[trigger] fjs@[jj]).wf() && fjs@[jj].num_vars == nu + l,
                forall|jj: int|
                    0 <= jj < j ==> selector_of(
                        column_tables(instances@, jj),
                        pow2(l as nat),
                        (#[trigger] fjs@[jj])@,
                    ),
            decreases t - j,
        {
            let mut gsj: Vec<MlePoly> = Vec::new();
            let mut i2: usize = 0;
            while i2 < n
                invariant
                    i2 <= n,
                    j < t,
                    n == instances@.len() >= 1,
                    t == instances@[0].g_vec@.len(),
                    instances_input_ok(instances@),
                    same_t(instances@),
                    l == shared_l(instances@),
                    gsj@.len() == i2,
                    forall|k: int|
                        0 <= k < i2 ==> (#[trigger] gsj@[k]).wf() && gsj@[k].num_vars == l
                            && gsj@[k]@ == instances@[k].g_vec@[j as int]@,
                decreases n - i2,
            {
                let g = instances[i2].g_vec[j].duplicate();
                proof {
                    assert(inst_wf(instances@[i2 as int], shared_l(instances@)));
                    assert(instances@[i2 as int].g_vec@[j as int].wf());
                }
                gsj.push(g);
                i2 = i2 + 1;
            }
            let fj = match build_fj_polynomial(&gsj) {
                Ok(f) => f,
                Err(e) => {
                    proof {
                        if e == Error::NotPowerOfTwo {
                            assert(pow2(nu as nat) == gsj@.len());
                            assert(false);
                        } else {
                            assert(gsj@[0].num_vars == l);
                            assert(false);
                        }
                    }
                    return Err(e);
                },
            };
            proof {
                crate::sumfold::utils::lemma_pow2_injective(
                    (fj.num_vars - gsj@[0].num_vars) as nat,
                    nu as nat,
                );
                assert(fj.num_vars == nu + l);
                assert(tables_of(gsj@) =~= column_tables(instances@, j as int)) by {
                    assert forall|k: int| 0 <= k < n implies #[trigger] tables_of(gsj@)[k]
                        == column_tables(instances@, j as int)[k] by {
                        assert(gsj@[k]@ == instances@[k].g_vec@[j as int]@);
                    }
                }
            }
            fjs.push(fj);
            j = j + 1;
        }
        let f_comb = instances[0].F_func;
        proof {
            assert(inst_wf(instances@[rho as int], shared_l(instances@)));
            assert(forall|jj: int|
                0 <= jj < instances@[rho as int].g_vec@.len() ==> (#[trigger] instances@[rho as int].g_vec@[jj]).evaluations@.len()
                    == pow2(l as nat));
        }
        let sum_val = compute_sum(&f_comb, &instances[rho].g_vec, 0, size);
        let q = build_Q_polynomial(&sum_val, rho, nu);
        let eng = Self::prove_outer_sumcheck(&instances[rho].g_vec);
        let p = SumFoldProof { Q_poly: q, fj_poly: fjs, instances, proof: eng };
        proof {
            assert(p.l() == l);
            assert(p.nu() == nu);
            assert(p.Q_poly@[rho as int] == instance_sum(
                p.instances@[rho as int],
                shared_l(p.instances@),
            ));
        }
        Ok(p)
    }

    /// Folds a batch of instances into one proof, drawing the selection
    /// index from the randomness source. The verifier must redraw the same
    /// index from an identically seeded source.
    pub fn sumfold(instances: Vec<SumFoldInstance>, rng: &mut StdRng) -> (r: Result<
        SumFoldProof,
        Error,
    >)
        requires
            instances_input_ok(instances@),
        ensures
            match r {
                Ok(p) => same_t(instances@) && (exists|rho: int|
                    #![auto]
                    0 <= rho < instances@.len() && fold_ok(instances@, rho, p)),
                Err(Error::DimensionMismatch) => !same_t(instances@),
                Err(Error::NotPowerOfTwo) => same_t(instances@) && (forall|k: nat|
                    pow2(k) != instances@.len()),
                Err(_) => false,
            },
    {
        let n = instances.len();
        let rho = sample_index(rng, n);
        let ghost w = rho as int;
        let r = Self::sumfold_with_rho(instances, rho);
        proof {
            if r is Ok {
                assert(0 <= w < instances@.len() && fold_ok(instances@, w, r->Ok_0));
            }
        }
        r
    }

    /// The relation between a verification's outcome and the verifier's own
    /// checks for a selected index: a failed check names its error, and when
    /// every check passes the outer sumcheck engine decides between success
    /// and rejection of the claimed sum.
    pub open spec fn verify_outcome_ok(self, rho: int, r: Result<bool, Error>) -> bool {
        match self.structure_verdict(rho) {
            Some(e) => r == Err::<bool, Error>(e),
            None => r == Ok::<bool, Error>(true) || r == Err::<bool, Error>(Error::InvalidSum),
        }
    }

    /// Verifies the proof against an already-drawn selection index: checks
    /// the indicator polynomial's structure and value, recomputes the
    /// claimed sum both from the selector polynomials and from the selected
    /// instance's raw tables, and finally asks the outer sumcheck engine.
    /// Returns the first failure as the data model names it.
    pub fn verify_with_rho(&self, rho: usize) -> (r: Result<bool, Error>)
        requires
            self.wf(),
            (rho as int) < self.instances@.len(),
        ensures
            self.verify_outcome_ok(rho as int, r),
    {
        let nu = self.Q_poly.num_vars;
        let n = self.Q_poly.evaluations.len();
        let z = Scalar::zero();
        let mut i: usize = 0;
        while i < n
            invariant
                i <= n,
                self.wf(),
                (rho as int) < self.instances@.len(),
                n == self.Q_poly@.len(),
                z@ == 0,
                forall|k: int| 0 <= k < i && k != rho ==> #[trigger] self.Q_poly@[k] == 0,
            decreases n - i,
        {
            if i != rho {
                let qi = self.Q_poly.evaluations[i];
                proof {
                    lemma_scalar_eq_iff_view_eq(qi, z);
                    assert(self.Q_poly@[i as int] == qi@);
                }
                if qi != z {
                    proof {
                        assert(self.Q_poly@[i as int] != 0);
                    }
                    return Err(Error::InvalidRho);
                }
            }
            i = i + 1;
        }
        proof {
            assert(!(exists|k: int|
                0 <= k < self.Q_poly@.len() && k != rho && #[trigger] self.Q_poly@[k] != 0));
        }
        let l = self.fj_poly[0].num_vars - nu;
        let cap = self.fj_poly[0].evaluations.len();
        proof {
            vstd::arithmetic::power2::lemma_pow2_adds(self.nu(), self.l());
            if l < self.fj_poly@[0].num_vars {
                vstd::arithmetic::power2::lemma_pow2_strictly_increases(
                    l as nat,
                    self.fj_poly@[0].num_vars as nat,
                );
            }
            vstd::arithmetic::mul::lemma_mul_inequality(
                rho + 1,
                pow2(self.nu()) as int,
                pow2(self.l()) as int,
            );
            vstd::arithmetic::mul::lemma_mul_is_distributive_add_other_way(
                pow2(self.l()) as int,
                rho as int,
                1,
            );
            vstd::arithmetic::mul::lemma_mul_nonnegative(rho as int, pow2(self.l()) as int);
            assert((rho as int) * (pow2(self.l()) as int) + pow2(self.l()) <= cap as int);
        }
        let size = pow2_exec(l);
        let base = rho * size;
        let sum_val = compute_sum(&self.instances[0].F_func, &self.fj_poly, base, size);
        proof {
            assert(sum_val@ == self.fj_sum(rho as int));
        }
        let qr = self.Q_poly.evaluations[rho];
        proof {
            lemma_scalar_eq_iff_view_eq(qr, sum_val);
            assert(self.Q_poly@[rho as int] == qr@);
        }
        if qr != sum_val {
            return Err(Error::InvalidSum);
        }
        proof {
            lemma_scalar_eq_iff_view_eq(sum_val, z);
        }
        if sum_val == z {
            return Err(Error::InvalidSum);
        }
        proof {
            assert(inst_wf(self.instances@[rho as int], self.l()));
            assert(forall|jj: int|
                0 <= jj < self.instances@[rho as int].g_vec@.len() ==> (
                #[trigger] self.instances@[rho as int].g_vec@[jj]).evaluations@.len() == pow2(
                    self.l(),
                ));
        }
        let raw = compute_sum(&self.instances[0].F_func, &self.instances[rho].g_vec, 0, size);
        proof {
            assert(raw@ == self.raw_sum(rho as int));
            lemma_scalar_eq_iff_view_eq(raw, sum_val);
        }
        if raw != sum_val {
            return Err(Error::InvalidSum);
        }
        let ok = Self::verify_outer_sumcheck(&self.instances[rho].g_vec, &self.proof, &sum_val);
        if !ok {
            return Err(Error::InvalidSum);
        }
        Ok(true)
    }

    /// Verifies the proof, redrawing the selection index from a randomness
    /// source that must replay the prover's draws. The outcome is the one
    /// `verify_with_rho` gives for the drawn index.
    pub fn verify(&self, rng: &mut StdRng) -> (r: Result<bool, Error>)
        requires
            self.wf(),
        ensures
            exists|rho: int|
                0 <= rho < self.instances@.len() && #[trigger] self.verify_outcome_ok(rho, r),
    {
        let n = self.Q_poly.evaluations.len();
        proof {
            vstd::arithmetic::power2::lemma_pow2_pos(self.nu());
        }
        let rho = sample_index(rng, n);
        let ghost w = rho as int;
        let r = self.verify_with_rho(rho);
        proof {
            assert(0 <= w < self.instances@.len() && self.verify_outcome_ok(w, r));
        }
        r
    }
}

/// Completeness of the verifier's own checks: an honestly folded proof whose
/// selected instance has a nonzero honest sum passes every check before the
/// outer sumcheck engine is consulted, when verified with the index the fold
/// used.
pub proof fn lemma_fold_verify_completeness(
    instances: Seq<SumFoldInstance>,
    rho: int,
    p: SumFoldProof,
)
    requires
        instances_input_ok(instances),
        same_t(instances),
        0 <= rho < instances.len(),
        fold_ok(instances, rho, p),
        instance_sum(instances[rho], shared_l(instances)) != 0,
    ensures
        p.structure_verdict(rho) is None,
{
    let l = shared_l(instances);
    let t = instances[0].g_vec@.len();
    let ga = tables_of(p.fj_poly@);
    let gb = tables_of(instances[rho].g_vec@);
    assert(instances[rho].g_vec@.len() == t);
    assert forall|j: int, x: int| 0 <= j < ga.len() && 0 <= x < pow2(l) implies #[trigger] ga[j][rho
        * pow2(l) + x] == #[trigger] gb[j][0 + x] by {
        assert(selector_of(column_tables(instances, j), pow2(l), p.fj_poly@[j]@));
        assert(p.fj_poly@[j]@[rho * pow2(l) + x] == column_tables(instances, j)[rho][x]);
        assert(column_tables(instances, j)[rho] == instances[rho].g_vec@[j]@);
    }
    lemma_sum_terms_window(
        p.instances@[0].F_func,
        ga,
        rho * pow2(l),
        gb,
        0,
        pow2(l),
    );
    assert(p.l() == l);
    assert(p.fj_sum(rho) == p.raw_sum(rho));
    assert(p.raw_sum(rho) == instance_sum(instances[rho], l));
    assert(p.Q_poly@[rho] == p.fj_sum(rho));
    assert(!(exists|i: int|
        0 <= i < p.Q_poly@.len() && i != rho && #[trigger] p.Q_poly@[i] != 0));
}

/// Soundness against a mismatched selection index: verifying an honestly
/// folded proof with a nonzero honest sum at any other index fails the
/// indicator's structural check.
pub proof fn lemma_verify_rejects_wrong_rho(
    instances: Seq<SumFoldInstance>,
    rho: int,
    p: SumFoldProof,
    rho2: int,
)
    requires
        instances_input_ok(instances),
        same_t(instances),
        0 <= rho < instances.len(),
        fold_ok(instances, rho, p),
        instance_sum(instances[rho], shared_l(instances)) != 0,
        0 <= rho2 < instances.len(),
        rho2 != rho,
    ensures
        p.structure_verdict(rho2) == Some(Error::InvalidRho),
{
    assert(p.Q_poly@.len() == pow2(p.nu()));
    assert(p.Q_poly@[rho] == instance_sum(instances[rho], shared_l(instances)));
    assert(0 <= rho < p.Q_poly@.len() && rho != rho2 && p.Q_poly@[rho] != 0);
}

/// Soundness against a tampered claim: changing the indicator's nonzero
/// value by one while keeping everything else fails the value check.
pub proof fn lemma_verify_rejects_tampered_claim(
    instances: Seq<SumFoldInstance>,
    rho: int,
    p: SumFoldProof,
    p2: SumFoldProof,
)
    requires
        instances_input_ok(instances),
        same_t(instances),
        0 <= rho < instances.len(),
        fold_ok(instances, rho, p),
        p2.fj_poly@ == p.fj_poly@,
        p2.instances@ == p.instances@,
        p2.Q_poly.num_vars == p.Q_poly.num_vars,
        p2.Q_poly@.len() == p.Q_poly@.len(),
        p2.Q_poly@[rho] == (p.Q_poly@[rho] + 1) % r_mod(),
        forall|i: int|
            0 <= i < p2.Q_poly@.len() && i != rho ==> #[trigger] p2.Q_poly@[i] == p.Q_poly@[i],
    ensures
        p2.structure_verdict(rho) == Some(Error::InvalidSum),
{
    let l = shared_l(instances);
    let ga = tables_of(p.fj_poly@);
    let gb = tables_of(instances[rho].g_vec@);
    assert forall|j: int, x: int| 0 <= j < ga.len() && 0 <= x < pow2(l) implies #[trigger] ga[j][rho
        * pow2(l) + x] == #[trigger] gb[j][0 + x] by {
        assert(selector_of(column_tables(instances, j), pow2(l), p.fj_poly@[j]@));
        assert(p.fj_poly@[j]@[rho * pow2(l) + x] == column_tables(instances, j)[rho][x]);
        assert(column_tables(instances, j)[rho] == instances[rho].g_vec@[j]@);
    }
    lemma_sum_terms_window(p.instances@[0].F_func, ga, rho * pow2(l), gb, 0, pow2(l));
    let s = p.Q_poly@[rho];
    assert(p.fj_sum(rho) == s);
    assert(p2.fj_sum(rho) == p.fj_sum(rho));
    crate::mle::lemma_mle_entries_canonical(p.Q_poly);
    assert(0 <= s < r_mod());
    if s + 1 < r_mod() {
        vstd::arithmetic::div_mod::lemma_small_mod((s + 1) as nat, r_mod() as nat);
        assert(p2.Q_poly@[rho] == s + 1);
    } else {
        assert(s == r_mod() - 1);
        vstd::arithmetic::div_mod::lemma_mod_self_0(r_mod());
        assert(p2.Q_poly@[rho] == 0);
    }
    assert(p2.Q_poly@[rho] != p2.fj_sum(rho));
    assert(!(exists|i: int|
        0 <= i < p2.Q_poly@.len() && i != rho && #[trigger] p2.Q_poly@[i] != 0));
}

} // verus!
