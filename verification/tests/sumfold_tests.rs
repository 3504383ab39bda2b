use sumfold::field::Scalar;
use sumfold::mle::MlePoly;
use sumfold::sumfold::q_poly::build_Q_polynomial;
use sumfold::sumfold::utils::build_random_poly;
use sumfold::sumfold::utils::product_f;
use sumfold::sumfold::Combinator;
use sumfold::sumfold::Error;
use sumfold::sumfold::SumFoldInstance;
use sumfold::sumfold::SumFoldProof;
use ark_ff::PrimeField;
use ark_std::rand::rngs::StdRng;
use ark_std::rand::Rng;
use ark_std::rand::SeedableRng;
use ark_test_curves::bls12_381::Fr;

fn to_scalar(x: Fr) -> Scalar {
    let d = x.into_bigint().0;
    Scalar { c0: d[0], c1: d[1], c2: d[2], c3: d[3] }
}

fn to_fr(s: &Scalar) -> Fr {
    Fr::from_bigint(ark_ff::BigInt([s.c0, s.c1, s.c2, s.c3])).unwrap()
}

#[test]
fn test_sumfold_correctness() {
    // n: num of instances
    let ns = [2, 4, 8, 16];
    // l: num of bits for g polynomial
    let ls = [2, 4, 8, 16];
    let num_tries = 10;

    for &n in &ns {
        for &l in &ls {
            for t in 0..num_tries {
                println!("test_sumfold n={} l={} t={}", n, l, t);
                let mut rng = StdRng::seed_from_u64(99);

                let mut instances = Vec::with_capacity(n);
                for _ in 0..n {
                    let g0: MlePoly = build_random_poly(l, &mut rng);
                    let g1: MlePoly = build_random_poly(l, &mut rng);
                    let inst = SumFoldInstance {
                        F_func: Combinator::Product,
                        g_vec: vec![g0, g1],
                    };
                    instances.push(inst);
                }

                let mut prover_rng = StdRng::seed_from_u64(122);
                let proof = SumFoldProof::sumfold(instances, &mut prover_rng).unwrap();

                let mut verifier_rng = StdRng::seed_from_u64(122);
                let verified = SumFoldProof::verify(&proof, &mut verifier_rng).unwrap();
                assert!(verified, "Failed at n={} l={} t={}", n, l, t);
            }
        }
    }
}

#[test]
fn test_sumfold_soundness() {
    // n: num of instances
    let ns = [2, 4, 8, 16];
    // l: num of bits for g polynomial
    let ls = [2, 4, 8, 16];
    let num_tries = 10;

    for &n in &ns {
        for &l in &ls {
            for t in 0..num_tries {
                println!("test_sumfold n={} l={} t={}", n, l, t);
                let mut rng = StdRng::seed_from_u64(99);

                let mut instances = Vec::with_capacity(n);
                for _ in 0..n {
                    let g0: MlePoly = build_random_poly(l, &mut rng);
                    let g1: MlePoly = build_random_poly(l, &mut rng);
                    let inst = SumFoldInstance {
                        F_func: Combinator::Product,
                        g_vec: vec![g0, g1],
                    };
                    instances.push(inst);
                }

                let mut prover_rng = StdRng::seed_from_u64(122);
                let proof = SumFoldProof::sumfold(instances.clone(), &mut prover_rng).unwrap();

                // verify with invalid rho
                let mut verifier_rng = StdRng::seed_from_u64(126);
                let verified = SumFoldProof::verify(&proof, &mut verifier_rng);
                assert!(
                    verified.is_err(),
                    "Should failed, but succeed at n={} l={} t={}",
                    n,
                    l,
                    t
                );

                // verify with invalid claim
                let mut prover_rng2 = StdRng::seed_from_u64(122);
                let rho_int = prover_rng2.gen_range(0..n);
                let bumped = to_scalar(to_fr(&proof.Q_poly.evaluations[rho_int]) + Fr::from(1u64));
                let invalid_q_poly = build_Q_polynomial(&bumped, rho_int, log2_usize(n));
                let SumFoldProof { fj_poly, proof: engine_proof, .. } = proof;
                let invalid_proof = SumFoldProof {
                    Q_poly: invalid_q_poly,
                    fj_poly,
                    instances: instances.clone(),
                    proof: engine_proof,
                };
                let mut verifier_rng = StdRng::seed_from_u64(122);
                let verified = SumFoldProof::verify(&invalid_proof, &mut verifier_rng);
                assert!(
                    verified.is_err(),
                    "Should failed, but succeed at n={} l={} t={}",
                    n,
                    l,
                    t
                );
            }
        }
    }
}

fn log2_usize(n: usize) -> usize {
    let mut nu = 0usize;
    let mut p = 1usize;
    while p < n {
        p *= 2;
        nu += 1;
    }
    nu
}

fn known_instance(vals0: &[u64], vals1: &[u64], l: usize) -> SumFoldInstance {
    let g0 = MlePoly {
        num_vars: l,
        evaluations: vals0.iter().map(|v| Scalar::from_u64(*v)).collect(),
    };
    let g1 = MlePoly {
        num_vars: l,
        evaluations: vals1.iter().map(|v| Scalar::from_u64(*v)).collect(),
    };
    SumFoldInstance { F_func: Combinator::Product, g_vec: vec![g0, g1] }
}

#[test]
fn test_product_combinator_exact() {
    let vals = vec![Scalar::from_u64(2), Scalar::from_u64(3), Scalar::from_u64(5)];
    assert_eq!(product_f(&vals), Scalar::from_u64(30));
    assert_eq!(product_f(&Vec::new()), Scalar::one());
}

#[test]
fn test_fold_stores_exact_sum_in_indicator() {
    // One instance of two one-variable tables: the honest sum is
    // 2*5 + 3*7 = 31, and with a single instance the selected index is 0.
    let inst = known_instance(&[2, 3], &[5, 7], 1);
    let proof = SumFoldProof::sumfold_with_rho(vec![inst], 0).unwrap();
    assert_eq!(proof.Q_poly.evaluations.len(), 1);
    assert_eq!(proof.Q_poly.evaluations[0], Scalar::from_u64(31));
    assert!(SumFoldProof::verify_with_rho(&proof, 0).unwrap());
}

#[test]
fn test_two_instance_scenario() {
    // Two instances (n = 2), each with two length-4 (l = 2) value
    // extensions and the product combinator.
    let i0 = known_instance(&[1, 2, 3, 4], &[5, 6, 7, 8], 2);
    let i1 = known_instance(&[9, 10, 11, 12], &[13, 14, 15, 16], 2);

    // Fold and verify with identically seeded randomness sources: success.
    let mut prover_rng = StdRng::seed_from_u64(122);
    let proof = SumFoldProof::sumfold(vec![i0.clone(), i1.clone()], &mut prover_rng).unwrap();
    let mut verifier_rng = StdRng::seed_from_u64(122);
    assert!(proof.verify(&mut verifier_rng).unwrap());

    // The indicator holds the selected instance's honest sum:
    // sums are 1*5+2*6+3*7+4*8 = 70 and 9*13+10*14+11*15+12*16 = 614.
    let mut probe_rng = StdRng::seed_from_u64(122);
    let rho = probe_rng.gen_range(0..2usize);
    let expect = if rho == 0 { 70u64 } else { 614u64 };
    assert_eq!(proof.Q_poly.evaluations[rho], Scalar::from_u64(expect));

    // Verifying against the other index must fail the structural check.
    let other = 1 - rho;
    let r = proof.verify_with_rho(other);
    assert!(matches!(r, Err(Error::InvalidRho)));
}

#[test]
fn test_tampered_claim_gives_invalid_sum() {
    let i0 = known_instance(&[1, 2, 3, 4], &[5, 6, 7, 8], 2);
    let i1 = known_instance(&[9, 10, 11, 12], &[13, 14, 15, 16], 2);
    let proof = SumFoldProof::sumfold_with_rho(vec![i0, i1], 1).unwrap();
    assert!(proof.verify_with_rho(1).unwrap());

    let bumped = to_scalar(to_fr(&proof.Q_poly.evaluations[1]) + Fr::from(1u64));
    let SumFoldProof { fj_poly, instances, proof: engine_proof, .. } = proof;
    let tampered = SumFoldProof {
        Q_poly: build_Q_polynomial(&bumped, 1, 1),
        fj_poly,
        instances,
        proof: engine_proof,
    };
    let r = tampered.verify_with_rho(1);
    assert!(matches!(r, Err(Error::InvalidSum)));
}

#[test]
fn test_fold_error_kinds() {
    // Component counts disagree: a dimension mismatch.
    let a = known_instance(&[1, 2], &[3, 4], 1);
    let mut b = known_instance(&[5, 6], &[7, 8], 1);
    b.g_vec.pop();
    let r = SumFoldProof::sumfold_with_rho(vec![a.clone(), b], 0);
    assert!(matches!(r, Err(Error::DimensionMismatch)));

    // Three instances: not a power of two.
    let r = SumFoldProof::sumfold_with_rho(
        vec![a.clone(), a.clone(), a.clone()],
        0,
    );
    assert!(matches!(r, Err(Error::NotPowerOfTwo)));
}

#[test]
fn test_outer_sumcheck_bridge_accepts_only_true_claim() {
    // The engine proves the product claim over the raw tables; its verdict
    // must track the claimed value: 2*5 + 3*7 = 31.
    let inst = known_instance(&[2, 3], &[5, 7], 1);
    let proof = SumFoldProof::prove_outer_sumcheck(&inst.g_vec);
    assert!(SumFoldProof::verify_outer_sumcheck(&inst.g_vec, &proof, &Scalar::from_u64(31)));
    assert!(!SumFoldProof::verify_outer_sumcheck(&inst.g_vec, &proof, &Scalar::from_u64(32)));
}

#[test]
fn test_build_random_poly_shape_and_range() {
    let mut rng = StdRng::seed_from_u64(99);
    let p = build_random_poly(3, &mut rng);
    assert_eq!(p.num_vars, 3);
    assert_eq!(p.evaluations.len(), 8);
    for s in &p.evaluations {
        assert_eq!(s.c1, 0);
        assert_eq!(s.c2, 0);
        assert_eq!(s.c3, 0);
        assert!(1 <= s.c0 && s.c0 < 50);
    }
}
