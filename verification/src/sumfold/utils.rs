//! Shared helpers: exact powers of two, the product combinator, random dense
//! extensions, and the randomness-source draws the protocol makes.

use vstd::prelude::*;
use crate::field::Scalar;
use crate::field::r_mod;
use crate::field::scalar_mul;
use crate::mle::MlePoly;
use crate::mle::pow2;
use ark_std::rand::Rng;

verus! {

/// The sequence of integers a sequence of field elements represents.
pub open spec fn scalar_views(s: Seq<Scalar>) -> Seq<int> {
    s.map(|_i: int, x: Scalar| x@)
}

/// All elements of the sequence are canonical field elements.
pub open spec fn scalars_wf(s: Seq<Scalar>) -> bool {
    forall|i: int| 0 <= i < s.len() ==> (#[trigger] s[i]).wf()
}

/// The product modulo the field order of a sequence of residues, accumulated
/// left to right starting from 1.
pub open spec fn prod_mod(vals: Seq<int>) -> int
    decreases vals.len(),
{
    if vals.len() == 0 {
        1
    } else {
        (prod_mod(vals.drop_last()) * vals.last()) % r_mod()
    }
}

/// 2^e is at least e + 1.
pub proof fn lemma_pow2_at_least_linear(e: nat)
    ensures
        pow2(e) >= e + 1,
    decreases e,
{
    if e > 0 {
        lemma_pow2_at_least_linear((e - 1) as nat);
        vstd::arithmetic::power2::lemma_pow2_unfold(e);
    } else {
        vstd::arithmetic::power2::lemma2_to64();
    }
}

/// Powers of two are injective in the exponent.
pub proof fn lemma_pow2_injective(a: nat, b: nat)
    requires
        pow2(a) == pow2(b),
    ensures
        a == b,
{
    if a < b {
        vstd::arithmetic::power2::lemma_pow2_strictly_increases(a, b);
    }
    if b < a {
        vstd::arithmetic::power2::lemma_pow2_strictly_increases(b, a);
    }
}

/// Computes 2^e as a machine integer.
pub fn pow2_exec(e: usize) -> (r: usize)
    requires
        pow2(e as nat) <= usize::MAX,
    ensures
        r == pow2(e as nat),
{
    let mut r: usize = 1;
    let mut i: usize = 0;
    proof {
        vstd::arithmetic::power2::lemma2_to64();
    }
    while i < e
        invariant
            i <= e,
            r == pow2(i as nat),
            pow2(e as nat) <= usize::MAX,
        decreases e - i,
    {
        proof {
            if i + 1 < e {
                vstd::arithmetic::power2::lemma_pow2_strictly_increases((i + 1) as nat, e as nat);
            }
            vstd::arithmetic::power2::lemma_pow2_unfold((i + 1) as nat);
        }
        r = r * 2;
        i = i + 1;
    }
    r
}

/// Finds the exact base-two logarithm of `n`, or reports that `n` is not a
/// power of two.
pub fn log2_exact(n: usize) -> (r: Option<usize>)
    ensures
        match r {
            Some(nu) => pow2(nu as nat) == n,
            None => forall|k: nat| pow2(k) != n,
        },
{
    if n == 0 {
        proof {
            assert forall|k: nat| pow2(k) != n by {
                vstd::arithmetic::power2::lemma_pow2_pos(k);
            }
        }
        return None;
    }
    let mut p: usize = 1;
    let mut nu: usize = 0;
    proof {
        vstd::arithmetic::power2::lemma2_to64();
    }
    while p < n
        invariant
            1 <= p <= n,
            p == pow2(nu as nat),
        decreases n - p,
    {
        if p > n / 2 {
            proof {
                assert forall|k: nat| pow2(k) != n by {
                    if k <= nu as nat {
                        if k < nu as nat {
                            vstd::arithmetic::power2::lemma_pow2_strictly_increases(k, nu as nat);
                        }
                    } else {
                        vstd::arithmetic::power2::lemma_pow2_unfold((nu + 1) as nat);
                        if k > (nu + 1) as nat {
                            vstd::arithmetic::power2::lemma_pow2_strictly_increases(
                                (nu + 1) as nat,
                                k,
                            );
                        }
                    }
                }
            }
            return None;
        }
        proof {
            vstd::arithmetic::power2::lemma_pow2_unfold((nu + 1) as nat);
            lemma_pow2_at_least_linear(nu as nat);
        }
        p = p * 2;
        nu = nu + 1;
    }
    Some(nu)
}

/// Computes the product of a vector of field elements, the empty product
/// being one.
pub fn product_f(vals: &Vec<Scalar>) -> (r: Scalar)
    requires
        scalars_wf(vals@),
    ensures
        r.wf(),
        r@ == prod_mod(scalar_views(vals@)),
{
    let mut acc = Scalar::one();
    let mut i: usize = 0;
    proof {
        assert(scalar_views(vals@).take(0) =~= Seq::<int>::empty());
    }
    while i < vals.len()
        invariant
            i <= vals.len(),
            scalars_wf(vals@),
            acc.wf(),
            acc@ == prod_mod(scalar_views(vals@).take(i as int)),
        decreases vals.len() - i,
    {
        proof {
            assert(scalar_views(vals@).take(i + 1).drop_last() =~= scalar_views(vals@).take(
                i as int,
            ));
            assert(scalar_views(vals@).take(i + 1).last() == vals@[i as int]@);
        }
        acc = scalar_mul(&acc, &vals[i]);
        i = i + 1;
    }
    proof {
        assert(scalar_views(vals@).take(vals@.len() as int) =~= scalar_views(vals@));
    }
    acc
}

/// A source of verifier randomness, as the concrete seedable generator the
/// protocol is driven by.
#[verifier::external_type_specification]
#[verifier::external_body]
pub struct ExStdRng(ark_std::rand::rngs::StdRng);

/// Relies on rand's `Rng::gen_range` over `0..n` on `usize`: a uniform draw
/// below `n`. Nothing more is promised of a random value.
#[verifier::external_body]
pub(crate) fn sample_index(rng: &mut ark_std::rand::rngs::StdRng, n: usize) -> (r: usize)
    requires
        n >= 1,
    ensures
        r < n,
{
    rng.gen_range(0..n)
}

/// Relies on rand's `Rng::gen_range` over the range 1..50: a uniform small
/// nonzero draw. Nothing more is promised of a random value.
#[verifier::external_body]
pub(crate) fn sample_value(rng: &mut ark_std::rand::rngs::StdRng) -> (r: u64)
    ensures
        1 <= r < 50,
{
    rng.gen_range(1..50) as u64
}

/// Builds a random dense multilinear extension with `n` variables whose
/// values are small and nonzero.
pub fn build_random_poly(n: usize, rng: &mut ark_std::rand::rngs::StdRng) -> (r: MlePoly)
    requires
        pow2(n as nat) <= usize::MAX,
    ensures
        r.wf(),
        r.num_vars == n,
        forall|i: int| 0 <= i < r@.len() ==> 1 <= #[trigger] r@[i] < 50,
{
    let size = pow2_exec(n);
    let mut evals: Vec<Scalar> = Vec::new();
    let mut i: usize = 0;
    while i < size
        invariant
            i <= size,
            evals@.len() == i,
            forall|k: int| 0 <= k < i ==> (#[trigger] evals@[k]).wf(),
            forall|k: int| 0 <= k < i ==> 1 <= (#[trigger] evals@[k])@ < 50,
        decreases size - i,
    {
        let v = sample_value(rng);
        evals.push(Scalar::from_u64(v));
        i = i + 1;
    }
    let r = MlePoly { num_vars: n, evaluations: evals };
    proof {
        assert(forall|k: int| 0 <= k < r@.len() ==> #[trigger] r@[k] == r.evaluations@[k]@);
    }
    r
}

} // verus!
