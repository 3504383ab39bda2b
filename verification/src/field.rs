//! Elements of the bls12-381 scalar field, held as their canonical little-endian
//! 64-bit limbs. Arithmetic is delegated to `ark_ff`; the limb representation
//! keeps the value itself visible to the verifier as an integer below the
//! group order.

use vstd::prelude::*;
use ark_ff::PrimeField;

verus! {

/// The order of the bls12-381 scalar field.
pub open spec fn r_mod() -> int {
    52435875175126190479447740508185965837690552500527637822603658699938581184513int
}

/// One element of the scalar field, as the four little-endian 64-bit limbs of
/// its canonical (fully reduced) integer representative.
#[derive(Clone, Copy, PartialEq, Eq, Structural, Debug)]
pub struct Scalar {
    /// Least significant limb.
    pub c0: u64,
    /// Second limb.
    pub c1: u64,
    /// Third limb.
    pub c2: u64,
    /// Most significant limb.
    pub c3: u64,
}

impl View for Scalar {
    type V = int;

    /// The integer the limbs spell in base 2^64.
    open spec fn view(&self) -> int {
        self.c0 + 0x10000000000000000int * self.c1
            + 0x100000000000000000000000000000000int * self.c2
            + 0x1000000000000000000000000000000000000000000000000int * self.c3
    }
}

impl Scalar {
    /// A limb vector is well formed when it is the canonical representative:
    /// an integer strictly below the field order.
    pub open spec fn wf(self) -> bool {
        self@ < r_mod()
    }

    /// The additive identity.
    pub fn zero() -> (r: Scalar)
        ensures
            r@ == 0,
            r.wf(),
    {
        Scalar { c0: 0, c1: 0, c2: 0, c3: 0 }
    }

    /// The multiplicative identity.
    pub fn one() -> (r: Scalar)
        ensures
            r@ == 1,
            r.wf(),
    {
        Scalar { c0: 1, c1: 0, c2: 0, c3: 0 }
    }

    /// Embeds a machine integer, which is always below the field order.
    pub fn from_u64(v: u64) -> (r: Scalar)
        ensures
            r@ == v as int,
            r.wf(),
    {
        Scalar { c0: v, c1: 0, c2: 0, c3: 0 }
    }

    /// The four little-endian limbs.
    pub fn limbs(&self) -> (r: [u64; 4])
        ensures
            r@ == seq![self.c0, self.c1, self.c2, self.c3],
    {
        let r = [self.c0, self.c1, self.c2, self.c3];
        proof {
            assert(r@ =~= seq![self.c0, self.c1, self.c2, self.c3]);
        }
        r
    }

    /// Rebuilds an element from four little-endian limbs.
    pub fn from_limbs(d: &[u64; 4]) -> (r: Scalar)
        ensures
            r.c0 == d@[0] && r.c1 == d@[1] && r.c2 == d@[2] && r.c3 == d@[3],
    {
        Scalar { c0: d[0], c1: d[1], c2: d[2], c3: d[3] }
    }
}

/// Two limb vectors are equal exactly when they spell the same integer:
/// the base-2^64 digits of a number are unique.
pub proof fn lemma_scalar_eq_iff_view_eq(a: Scalar, b: Scalar)
    ensures
        (a == b) <==> (a@ == b@),
{
    if a@ == b@ {
        let d: int = 0x10000000000000000;
        let qa1: int = a.c1 + 0x10000000000000000int * a.c2
            + 0x100000000000000000000000000000000int * a.c3;
        let qb1: int = b.c1 + 0x10000000000000000int * b.c2
            + 0x100000000000000000000000000000000int * b.c3;
        vstd::arithmetic::div_mod::lemma_fundamental_div_mod_converse(a@, d, qa1, a.c0 as int);
        vstd::arithmetic::div_mod::lemma_fundamental_div_mod_converse(b@, d, qb1, b.c0 as int);
        assert(a.c0 == b.c0 && qa1 == qb1);
        let qa2: int = a.c2 + 0x10000000000000000int * a.c3;
        let qb2: int = b.c2 + 0x10000000000000000int * b.c3;
        vstd::arithmetic::div_mod::lemma_fundamental_div_mod_converse(qa1, d, qa2, a.c1 as int);
        vstd::arithmetic::div_mod::lemma_fundamental_div_mod_converse(qb1, d, qb2, b.c1 as int);
        assert(a.c1 == b.c1 && qa2 == qb2);
        vstd::arithmetic::div_mod::lemma_fundamental_div_mod_converse(qa2, d, a.c3 as int, a.c2 as int);
        vstd::arithmetic::div_mod::lemma_fundamental_div_mod_converse(qb2, d, b.c3 as int, b.c2 as int);
        assert(a.c2 == b.c2 && a.c3 == b.c3);
    }
}

/// Relies on `ark_ff` addition in the bls12-381 scalar field
/// (`ark_test_curves::bls12_381::Fr`): on canonical representatives it returns
/// the canonical representative of the sum modulo the field order.
#[verifier::external_body]
pub(crate) fn scalar_add(a: &Scalar, b: &Scalar) -> (r: Scalar)
    requires
        a.wf(),
        b.wf(),
    ensures
        r.wf(),
        r@ == (a@ + b@) % r_mod(),
{
    let x = ark_test_curves::bls12_381::Fr::from_bigint(ark_ff::BigInt(a.limbs())).unwrap();
    let y = ark_test_curves::bls12_381::Fr::from_bigint(ark_ff::BigInt(b.limbs())).unwrap();
    Scalar::from_limbs(&(x + y).into_bigint().0)
}

/// Relies on `ark_ff` multiplication in the bls12-381 scalar field
/// (`ark_test_curves::bls12_381::Fr`): on canonical representatives it returns
/// the canonical representative of the product modulo the field order.
#[verifier::external_body]
pub(crate) fn scalar_mul(a: &Scalar, b: &Scalar) -> (r: Scalar)
    requires
        a.wf(),
        b.wf(),
    ensures
        r.wf(),
        r@ == (a@ * b@) % r_mod(),
{
    let x = ark_test_curves::bls12_381::Fr::from_bigint(ark_ff::BigInt(a.limbs())).unwrap();
    let y = ark_test_curves::bls12_381::Fr::from_bigint(ark_ff::BigInt(b.limbs())).unwrap();
    Scalar::from_limbs(&(x * y).into_bigint().0)
}

} // verus!
