//! The GKRFold adapter: turning rounds of a layered-circuit (GKR) sumcheck
//! into pairs of fold instances, then batching every pair with one fold
//! call. Each round's wiring extension is reduced by the external GKR
//! phase-one and phase-two table initializations; the challenge point a
//! round uses is the one sampled at the end of the previous round, the first
//! round using the all-zero point.

use vstd::prelude::*;
use crate::field::Scalar;
use crate::field::r_mod;
use crate::field::scalar_mul;
use crate::mle::MlePoly;
use crate::mle::SparsePoly;
use crate::mle::pow2;
use crate::mle::to_ark_dense;
use crate::mle::to_ark_sparse;
use crate::sumfold::Combinator;
use crate::sumfold::Error;
use crate::sumfold::SumFoldInstance;
use crate::sumfold::SumFoldProof;
use crate::sumfold::fold_ok;
use crate::sumfold::inst_wf;
use crate::sumfold::instances_input_ok;
use crate::sumfold::same_t;
use crate::sumfold::utils::scalar_views;
use crate::sumfold::utils::scalars_wf;
use ark_ff::PrimeField;
use ark_std::UniformRand;
use ark_std::rand::rngs::StdRng;
use ark_test_curves::bls12_381::Fr;
use ark_poly::DenseMultilinearExtension;
use ark_poly::MultilinearExtension;
use ark_poly::SparseMultilinearExtension;
use ark_linear_sumcheck::gkr_round_sumcheck::initialize_phase_one;
use ark_linear_sumcheck::gkr_round_sumcheck::initialize_phase_two;

verus! {

/// One round of a layered-circuit protocol: a sparse wiring extension over
/// three blocks of variables, two dense value extensions, and the fixed
/// evaluation point the prior round's challenge supplied.
pub struct GKRFoldInstance {
    /// The wiring extension, over 3 times the value extensions' variables.
    pub f1: SparsePoly,
    /// First value extension.
    pub f2: MlePoly,
    /// Second value extension.
    pub f3: MlePoly,
    /// The fixed evaluation point, one coordinate per value variable.
    pub g: Vec<Scalar>,
}

impl GKRFoldInstance {
    /// Shapes agree: the wiring extension ranges over three blocks of the
    /// value extensions' variables, and the evaluation point has one
    /// coordinate per variable.
    pub open spec fn wf(self) -> bool {
        &&& self.f2.wf()
        &&& self.f3.wf()
        &&& self.f2.num_vars == self.f3.num_vars
        &&& self.f3.num_vars >= 1
        &&& self.f1.wf()
        &&& self.f1.num_vars == 3 * self.f3.num_vars
        &&& self.g@.len() == self.f3.num_vars
        &&& scalars_wf(self.g@)
    }
}

/// What the external GKR phase-one reduction returns as its folded dense
/// table, as a function of the wiring entries, the second value table and
/// the evaluation point alone.
pub uninterp spec fn gkr_phase_one_table(f1: Seq<(int, int)>, f3: Seq<int>, g: Seq<int>) -> Seq<
    int,
>;

/// What the external GKR phase-one reduction returns as its partially bound
/// wiring extension: the wiring entries with the first block of variables
/// fixed at the evaluation point, a function of those two alone.
pub uninterp spec fn gkr_phase_one_fixed(f1: Seq<(int, int)>, g: Seq<int>) -> Seq<(int, int)>;

/// What the external GKR phase-two reduction returns: the dense form of the
/// partially bound wiring extension with its next block fixed at the
/// challenge point, a function of those two alone.
pub uninterp spec fn gkr_phase_two_table(f1g: Seq<(int, int)>, u: Seq<int>) -> Seq<int>;

/// What the substrate's full multilinear evaluation returns at an arbitrary
/// point, a function of the table and the point alone.
pub uninterp spec fn mle_eval_of(table: Seq<int>, point: Seq<int>) -> int;

/// Relies on `ark_linear_sumcheck::gkr_round_sumcheck::initialize_phase_one`:
/// from the wiring extension over 3·dim variables, the second value table
/// and the dim-coordinate evaluation point, it returns the folded dense
/// table over dim variables and the wiring extension fixed at the point,
/// over 2·dim variables, both deterministic in the inputs.
#[verifier::external_body]
fn gkr_phase_one(f1: &SparsePoly, f3: &MlePoly, g: &Vec<Scalar>) -> (r: (MlePoly, SparsePoly))
    requires
        f1.wf(),
        f3.wf(),
        scalars_wf(g@),
        f1.num_vars == 3 * f3.num_vars,
        f1.num_vars < 64,
        g@.len() == f3.num_vars,
        pow2(f3.num_vars as nat) <= usize::MAX,
    ensures
        r.0.wf(),
        r.0.num_vars == f3.num_vars,
        r.0@ == gkr_phase_one_table(f1@, f3@, scalar_views(g@)),
        r.1.wf(),
        r.1.num_vars == 2 * f3.num_vars,
        r.1@ == gkr_phase_one_fixed(f1@, scalar_views(g@)),
{
    let cv = |s: &Scalar| Fr::from_bigint(ark_ff::BigInt(s.limbs())).unwrap();
    let bk = |x: &Fr| Scalar::from_limbs(&x.into_bigint().0);
    let ga: Vec<Fr> = g.iter().map(cv).collect();
    let (hg, f1g) = initialize_phase_one(&to_ark_sparse(f1).inner, &to_ark_dense(f3).inner, &ga);
    let hv = MlePoly { num_vars: f3.num_vars, evaluations: hg.evaluations.iter().map(bk).collect() };
    let sv = SparsePoly { num_vars: f1g.num_vars, entries: f1g.evaluations.iter().map(|(k, x)| (*k, bk(x))).collect() };
    (hv, sv)
}

/// Relies on `ark_linear_sumcheck::gkr_round_sumcheck::initialize_phase_two`:
/// from the partially bound wiring extension over 2·dim variables and a
/// dim-coordinate challenge point, it returns the dense table over dim
/// variables, deterministic in the inputs.
#[verifier::external_body]
fn gkr_phase_two(f1_g: &SparsePoly, u: &Vec<Scalar>) -> (r: MlePoly)
    requires
        f1_g.wf(),
        f1_g.num_vars < 64,
        scalars_wf(u@),
        2 * u@.len() == f1_g.num_vars,
        pow2(u@.len() as nat) <= usize::MAX,
    ensures
        r.wf(),
        r.num_vars == u@.len(),
        r@ == gkr_phase_two_table(f1_g@, scalar_views(u@)),
{
    let cv = |s: &Scalar| Fr::from_bigint(ark_ff::BigInt(s.limbs())).unwrap();
    let bk = |x: &Fr| Scalar::from_limbs(&x.into_bigint().0);
    let ua: Vec<Fr> = u.iter().map(cv).collect();
    let d = initialize_phase_two(&to_ark_sparse(f1_g).inner, &ua);
    MlePoly { num_vars: d.num_vars, evaluations: d.evaluations.iter().map(bk).collect() }
}

/// Relies on `ark_poly`'s full multilinear evaluation
/// (`Polynomial::evaluate` on `DenseMultilinearExtension`): the unique
/// multilinear polynomial through the table, evaluated at the point,
/// deterministic in the inputs.
#[verifier::external_body]
fn mle_eval(f: &MlePoly, point: &Vec<Scalar>) -> (r: Scalar)
    requires
        f.wf(),
        scalars_wf(point@),
        point@.len() == f.num_vars,
    ensures
        r.wf(),
        r@ == mle_eval_of(f@, scalar_views(point@)),
{
    let cv = |s: &Scalar| Fr::from_bigint(ark_ff::BigInt(s.limbs())).unwrap();
    let pa: Vec<Fr> = point.iter().map(cv).collect();
    Scalar::from_limbs(&to_ark_dense(f).inner.evaluate(&pa).unwrap().into_bigint().0)
}

/// Relies on `UniformRand::rand` for the scalar field: a uniform field
/// element from the randomness source. Nothing more is promised of a random
/// value.
#[verifier::external_body]
fn sample_scalar(rng: &mut StdRng) -> (r: Scalar)
    ensures
        r.wf(),
{
    Scalar::from_limbs(&Fr::rand(rng).into_bigint().0)
}

/// Draws a challenge point of `dim` uniform field elements.
fn sample_point(rng: &mut StdRng, dim: usize) -> (r: Vec<Scalar>)
    ensures
        r@.len() == dim,
        scalars_wf(r@),
{
    let mut out: Vec<Scalar> = Vec::new();
    let mut i: usize = 0;
    while i < dim
        invariant
            i <= dim,
            out@.len() == i,
            scalars_wf(out@),
        decreases dim - i,
    {
        out.push(sample_scalar(rng));
        i = i + 1;
    }
    out
}

/// Scales a dense table by one field element, entry by entry.
pub fn scale_poly(c: &Scalar, f: &MlePoly) -> (r: MlePoly)
    requires
        c.wf(),
        f.wf(),
    ensures
        r.wf(),
        r.num_vars == f.num_vars,
        r@.len() == f@.len(),
        forall|x: int| 0 <= x < f@.len() ==> #[trigger] r@[x] == (c@ * f@[x]) % r_mod(),
{
    let mut evals: Vec<Scalar> = Vec::new();
    let mut i: usize = 0;
    while i < f.evaluations.len()
        invariant
            i <= f.evaluations@.len(),
            c.wf(),
            f.wf(),
            evals@.len() == i,
            forall|k: int| 0 <= k < i ==> (#[trigger] evals@[k]).wf(),
            forall|k: int| 0 <= k < i ==> (#[trigger] evals@[k])@ == (c@ * f@[k]) % r_mod(),
        decreases f.evaluations@.len() - i,
    {
        proof {
            assert(f@[i as int] == f.evaluations@[i as int]@);
        }
        evals.push(scalar_mul(c, &f.evaluations[i]));
        i = i + 1;
    }
    let r = MlePoly { num_vars: f.num_vars, evaluations: evals };
    proof {
        assert(forall|k: int| 0 <= k < r@.len() ==> #[trigger] r@[k] == r.evaluations@[k]@);
    }
    r
}

/// The two fold instances one GKR round emits, with `u` the challenge point
/// its phase-two reduction and scaling used: the first pairs the phase-one
/// table with the first value extension, the second pairs the phase-two
/// table with the second value extension scaled by the first's evaluation
/// at `u`.
pub open spec fn gkr_pair_ok(
    gi: GKRFoldInstance,
    s1: SumFoldInstance,
    s2: SumFoldInstance,
    u: Seq<int>,
) -> bool {
    let dim = gi.f3.num_vars as nat;
    &&& s1.F_func == Combinator::Product
    &&& s1.g_vec@.len() == 2
    &&& s1.g_vec@[0]@ == gkr_phase_one_table(gi.f1@, gi.f3@, scalar_views(gi.g@))
    &&& s1.g_vec@[0].num_vars == dim
    &&& s1.g_vec@[1]@ == gi.f2@
    &&& s1.g_vec@[1].num_vars == dim
    &&& s2.F_func == Combinator::Product
    &&& s2.g_vec@.len() == 2
    &&& u.len() == dim
    &&& s2.g_vec@[0]@ == gkr_phase_two_table(gkr_phase_one_fixed(gi.f1@, scalar_views(gi.g@)), u)
    &&& s2.g_vec@[0].num_vars == dim
    &&& s2.g_vec@[1].num_vars == dim
    &&& s2.g_vec@[1]@.len() == gi.f3@.len()
    &&& forall|x: int|
        0 <= x < gi.f3@.len() ==> #[trigger] s2.g_vec@[1]@[x] == (mle_eval_of(gi.f2@, u)
            * gi.f3@[x]) % r_mod()
}

/// The challenge point of all zeros, which the first round's reduction
/// uses.
pub open spec fn zero_point(dim: nat) -> Seq<int> {
    Seq::new(dim, |_i: int| 0)
}

/// The first `m` rounds' pairs stand in the emitted list, the `i`-th pair
/// derived with the `i`-th challenge point of `us`.
pub open spec fn emitted_with(
    gkr: Seq<GKRFoldInstance>,
    sc: Seq<SumFoldInstance>,
    us: Seq<Seq<int>>,
    m: int,
) -> bool {
    forall|i: int|
        #![trigger gkr[i]]
        0 <= i < m ==> gkr_pair_ok(gkr[i], sc[2 * i], sc[2 * i + 1], us[i])
}

/// The emitted instance list holds, in round order, the two instances of
/// each GKR round: the first round's pair is derived with the all-zero
/// challenge point, and each later round's pair with some point the first
/// randomness source supplied after the previous round, which only the
/// source determines and so stands existentially here.
pub open spec fn emitted_ok(gkr: Seq<GKRFoldInstance>, sc: Seq<SumFoldInstance>) -> bool {
    &&& sc.len() == 2 * gkr.len()
    &&& exists|us: Seq<Seq<int>>|
        us.len() == gkr.len() && (gkr.len() > 0 ==> us[0] == zero_point(
            gkr[0].f3.num_vars as nat,
        )) && #[trigger] emitted_with(gkr, sc, us, gkr.len() as int)
}

/// Folds a batch of GKR rounds: reduces each round with the external
/// phase-one and phase-two table initializations, emits its two product
/// instances, and hands the whole list to one fold call driven by the
/// second randomness source. The returned proof is verified exactly as any
/// fold proof is.
pub fn gkrfold(instances: Vec<GKRFoldInstance>, rng: &mut StdRng, sumfold_rng: &mut StdRng) -> (r:
    Result<SumFoldProof, Error>)
    requires
        instances@.len() >= 1,
        3 * instances@[0].f3.num_vars < 64,
        forall|i: int| 0 <= i < instances@.len() ==> (#[trigger] instances@[i]).wf(),
        forall|i: int|
            0 <= i < instances@.len() ==> (#[trigger] instances@[i]).f3.num_vars
                == instances@[0].f3.num_vars,
    ensures
        match r {
            Ok(p) => exists|sc: Seq<SumFoldInstance>, rho: int|
                #![auto]
                emitted_ok(instances@, sc) && 0 <= rho < sc.len() && fold_ok(sc, rho, p),
            Err(Error::NotPowerOfTwo) => forall|k: nat| pow2(k) != 2 * instances@.len(),
            Err(_) => false,
        },
{
    let n = instances.len();
    let dim = instances[0].f2.num_vars;
    let mut sc_instances: Vec<SumFoldInstance> = Vec::new();
    let mut u: Vec<Scalar> = Vec::new();
    let mut z: usize = 0;
    while z < dim
        invariant
            z <= dim,
            u@.len() == z,
            scalars_wf(u@),
            forall|k: int| 0 <= k < z ==> (#[trigger] u@[k])@ == 0,
        decreases dim - z,
    {
        u.push(Scalar::zero());
        z = z + 1;
    }
    proof {
        assert(scalar_views(u@) =~= zero_point(dim as nat));
    }
    let ghost mut usq: Seq<Seq<int>> = Seq::empty();
    let mut i: usize = 0;
    while i < n
        invariant
            i <= n,
            n == instances@.len() >= 1,
            dim == instances@[0].f3.num_vars,
            dim >= 1,
            3 * dim < 64,
            forall|k: int| 0 <= k < n ==> (#[trigger] instances@[k]).wf(),
            forall|k: int|
                0 <= k < n ==> (#[trigger] instances@[k]).f3.num_vars == dim,
            u@.len() == dim,
            scalars_wf(u@),
            i == 0 ==> scalar_views(u@) == zero_point(dim as nat),
            usq.len() == i && (i > 0 ==> usq[0] == zero_point(dim as nat)),
            sc_instances@.len() == 2 * i,
            forall|k: int|
                0 <= k < 2 * i ==> inst_wf(#[trigger] sc_instances@[k], dim as nat)
                    && sc_instances@[k].g_vec@.len() == 2 && sc_instances@[k].F_func
                    == Combinator::Product,
            emitted_with(instances@, sc_instances@, usq, i as int),
        decreases n - i,
    {
        let cap = instances[i].f2.evaluations.len();
        proof {
            assert(instances@[i as int].wf());
            assert(cap == pow2(dim as nat));
        }
        let (h_g, f1_g) = gkr_phase_one(&instances[i].f1, &instances[i].f3, &instances[i].g);
        let f1_gu = gkr_phase_two(&f1_g, &u);
        let c = mle_eval(&instances[i].f2, &u);
        let f3_f2u = scale_poly(&c, &instances[i].f3);
        let f2_copy = instances[i].f2.duplicate();
        proof {
            assert(f2_copy.wf()) by {
                assert(f2_copy.evaluations@ == instances@[i as int].f2.evaluations@);
            }
        }
        let ghost uview = scalar_views(u@);
        let mut gv1: Vec<MlePoly> = Vec::new();
        gv1.push(h_g);
        gv1.push(f2_copy);
        let s1 = SumFoldInstance { F_func: Combinator::Product, g_vec: gv1 };
        let mut gv2: Vec<MlePoly> = Vec::new();
        gv2.push(f1_gu);
        gv2.push(f3_f2u);
        let s2 = SumFoldInstance { F_func: Combinator::Product, g_vec: gv2 };
        proof {
            assert(gkr_pair_ok(instances@[i as int], s1, s2, uview));
            assert(inst_wf(s1, dim as nat));
            assert(inst_wf(s2, dim as nat));
        }
        let ghost pre = sc_instances@;
        sc_instances.push(s1);
        sc_instances.push(s2);
        proof {
            usq = usq.push(uview);
            assert(sc_instances@.len() == 2 * i + 2);
            assert forall|k: int| #![trigger instances@[k]] 0 <= k < i + 1 implies gkr_pair_ok(
                instances@[k],
                sc_instances@[2 * k],
                sc_instances@[2 * k + 1],
                usq[k],
            ) by {
                if k == i as int {
                    assert(sc_instances@[2 * k] == s1 && sc_instances@[2 * k + 1] == s2);
                    assert(usq[k] == uview);
                } else {
                    assert(sc_instances@[2 * k] == pre[2 * k]);
                    assert(sc_instances@[2 * k + 1] == pre[2 * k + 1]);
                }
            }
        }
        u = sample_point(rng, dim);
        // A second challenge vector is drawn each round; nothing reads it,
        // but the draw advances the randomness source that a replaying
        // verifier shares.
        let _v = sample_point(rng, dim);
        i = i + 1;
    }
    let ghost scv = sc_instances@;
    proof {
        assert(usq.len() == instances@.len() && usq[0] == zero_point(
            instances@[0].f3.num_vars as nat,
        ) && emitted_with(instances@, scv, usq, instances@.len() as int));
        assert(emitted_ok(instances@, scv));
        assert(instances_input_ok(scv));
        assert(same_t(scv));
    }
    let r = SumFoldProof::sumfold(sc_instances, sumfold_rng);
    proof {
        match &r {
            Ok(p) => {
                assert(exists|rho: int| #![auto] 0 <= rho < scv.len() && fold_ok(scv, rho, *p));
            },
            Err(e) => {
                if *e == Error::DimensionMismatch || *e == Error::SubProtocolRejected {
                    assert(false);
                }
            },
        }
    }
    r
}

} // verus!
