//! Selector polynomials: given 2^nu dense extensions of the same arity, one
//! larger extension whose leading nu variables pick an input and whose
//! trailing variables address into it.

use vstd::prelude::*;
use crate::field::Scalar;
use crate::mle::MlePoly;
use crate::mle::pow2;
use crate::sumfold::Error;
use crate::sumfold::utils::log2_exact;
use crate::sumfold::utils::lemma_pow2_at_least_linear;

verus! {

/// The tables a sequence of dense extensions holds.
pub open spec fn tables_of(gs: Seq<MlePoly>) -> Seq<Seq<int>> {
    gs.map(|_i: int, g: MlePoly| g@)
}

/// All polynomials in the sequence have `l` variables.
pub open spec fn same_arity(gs: Seq<MlePoly>, l: nat) -> bool {
    forall|i: int| 0 <= i < gs.len() ==> (#[trigger] gs[i]).num_vars == l
}

/// `f` is the selector table of `gs` with block size `size`: the
/// concatenation of the input tables, so that position `b * size + x` holds
/// the `b`-th table's entry at `x`.
pub open spec fn selector_of(gs: Seq<Seq<int>>, size: nat, f: Seq<int>) -> bool {
    &&& f.len() == gs.len() * size
    &&& forall|b: int, x: int|
        0 <= b < gs.len() && 0 <= x < size ==> f[b * size + x] == #[trigger] gs[b][x]
}

/// Builds the selector polynomial of a power-of-two-sized list of dense
/// extensions of equal arity: the result has `nu + l` variables, where the
/// list holds 2^nu inputs of `l` variables each, and evaluating it at a grid
/// point `(b, x)` gives the `b`-th input's value at `x`.
pub fn build_fj_polynomial(gs_for_j: &Vec<MlePoly>) -> (r: Result<MlePoly, Error>)
    requires
        forall|i: int| 0 <= i < gs_for_j@.len() ==> (#[trigger] gs_for_j@[i]).wf(),
    ensures
        match r {
            Ok(f) => {
                &&& f.wf()
                &&& gs_for_j@.len() == pow2((f.num_vars - gs_for_j@[0].num_vars) as nat)
                &&& gs_for_j@[0].num_vars <= f.num_vars
                &&& same_arity(gs_for_j@, gs_for_j@[0].num_vars as nat)
                &&& selector_of(
                    tables_of(gs_for_j@),
                    pow2(gs_for_j@[0].num_vars as nat),
                    f@,
                )
            },
            Err(Error::NotPowerOfTwo) => forall|k: nat| pow2(k) != gs_for_j@.len(),
            Err(Error::DimensionMismatch) => !same_arity(
                gs_for_j@,
                gs_for_j@[0].num_vars as nat,
            ),
            Err(_) => false,
        },
{
    let n = gs_for_j.len();
    let nu = match log2_exact(n) {
        Some(nu) => nu,
        None => {
            return Err(Error::NotPowerOfTwo);
        },
    };
    proof {
        vstd::arithmetic::power2::lemma_pow2_pos(nu as nat);
    }
    let l = gs_for_j[0].num_vars;
    let size = gs_for_j[0].evaluations.len();
    let mut b: usize = 1;
    while b < n
        invariant
            1 <= b <= n,
            n == gs_for_j@.len(),
            forall|i: int| 0 <= i < b ==> (#[trigger] gs_for_j@[i]).num_vars == l,
        decreases n - b,
    {
        if gs_for_j[b].num_vars != l {
            return Err(Error::DimensionMismatch);
        }
        b = b + 1;
    }
    let mut out: Vec<Scalar> = Vec::new();
    let mut bb: usize = 0;
    while bb < n
        invariant
            0 <= bb <= n,
            n == gs_for_j@.len(),
            forall|i: int| 0 <= i < n ==> (#[trigger] gs_for_j@[i]).wf(),
            forall|i: int| 0 <= i < n ==> (#[trigger] gs_for_j@[i]).num_vars == l,
            size == pow2(l as nat),
            out@.len() == bb * size,
            forall|b0: int, x0: int|
                0 <= b0 < bb && 0 <= x0 < size ==> out@[b0 * size + x0]@ == (
                #[trigger] tables_of(gs_for_j@)[b0][x0]),
            forall|i: int| 0 <= i < out@.len() ==> (#[trigger] out@[i]).wf(),
        decreases n - bb,
    {
        let g = &gs_for_j[bb];
        let mut x: usize = 0;
        proof {
            vstd::arithmetic::mul::lemma_mul_is_distributive_add_other_way(
                size as int,
                bb as int,
                1,
            );
        }
        while x < size
            invariant
                0 <= x <= size,
                bb < n,
                n == gs_for_j@.len(),
                g == gs_for_j@[bb as int],
                forall|i: int| 0 <= i < n ==> (#[trigger] gs_for_j@[i]).wf(),
                forall|i: int| 0 <= i < n ==> (#[trigger] gs_for_j@[i]).num_vars == l,
                size == pow2(l as nat),
                g.evaluations@.len() == size,
                out@.len() == bb * size + x,
                forall|b0: int, x0: int|
                    0 <= b0 < bb && 0 <= x0 < size ==> out@[b0 * size + x0]@ == (
                    #[trigger] tables_of(gs_for_j@)[b0][x0]),
                forall|x0: int|
                    0 <= x0 < x ==> out@[bb * size + x0]@ == (#[trigger] g.evaluations@[x0])@,
                forall|i: int| 0 <= i < out@.len() ==> (#[trigger] out@[i]).wf(),
            decreases size - x,
        {
            out.push(g.evaluations[x]);
            proof {
                assert forall|b0: int, x0: int|
                    0 <= b0 < bb && 0 <= x0 < size implies out@[b0 * size + x0]@ == tables_of(
                    gs_for_j@,
                )[b0][x0] by {
                    vstd::arithmetic::mul::lemma_mul_inequality(b0 + 1, bb as int, size as int);
                    vstd::arithmetic::mul::lemma_mul_is_distributive_add_other_way(
                        size as int,
                        b0,
                        1,
                    );
                    vstd::arithmetic::mul::lemma_mul_nonnegative(b0, size as int);
                }
            }
            x = x + 1;
        }
        proof {
            assert forall|x0: int| 0 <= x0 < size implies out@[bb * size + x0]@ == tables_of(
                gs_for_j@,
            )[bb as int][x0] by {
                assert(gs_for_j@[bb as int]@[x0] == g.evaluations@[x0]@);
            }
        }
        bb = bb + 1;
    }
    let total = out.len();
    proof {
        vstd::arithmetic::power2::lemma_pow2_adds(nu as nat, l as nat);
        assert(pow2((nu + l) as nat) == total as int);
        lemma_pow2_at_least_linear((nu + l) as nat);
        assert(nu + l < pow2((nu + l) as nat));
        assert forall|b0: int, x0: int|
            0 <= b0 < n && 0 <= x0 < size implies out@[b0 * size + x0]@ == tables_of(
            gs_for_j@,
        )[b0][x0] by {}
    }
    let f = MlePoly { num_vars: nu + l, evaluations: out };
    proof {
        assert forall|b0: int, x0: int|
            0 <= b0 < tables_of(gs_for_j@).len() && 0 <= x0 < pow2(l as nat) implies f@[b0 * size
            + x0] == tables_of(gs_for_j@)[b0][x0] by {
            assert(0 <= b0 * size + x0 < f@.len()) by {
                vstd::arithmetic::mul::lemma_mul_inequality(b0 + 1, n as int, size as int);
                vstd::arithmetic::mul::lemma_mul_is_distributive_add_other_way(
                    size as int,
                    b0,
                    1,
                );
                vstd::arithmetic::mul::lemma_mul_nonnegative(b0, size as int);
            }
            assert(f@[b0 * size + x0] == out@[b0 * size + x0]@);
        }
    }
    Ok(f)
}

/// Reads the selector polynomial at the grid point `(b, x)`: an O(1) table
/// lookup at position `b * 2^l + x`, valid only on the discrete grid.
/// Evaluating between grid points needs a general multilinear evaluation and
/// is not offered here.
pub fn evaluate_fj(f: &MlePoly, b: usize, x: usize, l: usize) -> (r: Scalar)
    requires
        f.wf(),
        l <= f.num_vars,
        b < pow2((f.num_vars - l) as nat),
        x < pow2(l as nat),
    ensures
        r.wf(),
        r@ == f@[b * pow2(l as nat) + x],
{
    let total = f.evaluations.len();
    proof {
        if l < f.num_vars {
            vstd::arithmetic::power2::lemma_pow2_strictly_increases(l as nat, f.num_vars as nat);
        }
        vstd::arithmetic::power2::lemma_pow2_adds((f.num_vars - l) as nat, l as nat);
        vstd::arithmetic::mul::lemma_mul_inequality(
            b + 1,
            pow2((f.num_vars - l) as nat) as int,
            pow2(l as nat) as int,
        );
        vstd::arithmetic::mul::lemma_mul_is_distributive_add_other_way(
            pow2(l as nat) as int,
            b as int,
            1,
        );
        vstd::arithmetic::mul::lemma_mul_nonnegative(b as int, pow2(l as nat) as int);
        assert(b * pow2(l as nat) + x < pow2(f.num_vars as nat));
    }
    let size = crate::sumfold::utils::pow2_exec(l);
    let idx = b * size + x;
    f.evaluations[idx]
}

/// The selector round trip: reading the selector polynomial of `gs` at any
/// grid point `(b, x)` gives back the `b`-th input table's entry at `x`.
pub proof fn lemma_selector_round_trip(gs: Seq<Seq<int>>, size: nat, f: Seq<int>, b: int, x: int)
    requires
        selector_of(gs, size, f),
        0 <= b < gs.len(),
        0 <= x < size,
    ensures
        f[b * size + x] == gs[b][x],
{
}

} // verus!
