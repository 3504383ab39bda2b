use sumfold::field::Scalar;
use sumfold::gkrfold::gkrfold;
use sumfold::gkrfold::GKRFoldInstance;
use sumfold::mle::MlePoly;
use sumfold::mle::SparsePoly;
use sumfold::sumfold::utils::build_random_poly;
use sumfold::sumfold::SumFoldProof;
use ark_ff::PrimeField;
use ark_ff::UniformRand;
use ark_poly::SparseMultilinearExtension;
use ark_std::rand::rngs::StdRng;
use ark_std::rand::SeedableRng;
use ark_test_curves::bls12_381::Fr;

fn to_scalar(x: Fr) -> Scalar {
    let d = x.into_bigint().0;
    Scalar { c0: d[0], c1: d[1], c2: d[2], c3: d[3] }
}

fn random_gkr_instance(dim: usize, rng: &mut StdRng) -> (SparsePoly, MlePoly, MlePoly) {
    let sparse: SparseMultilinearExtension<Fr> =
        SparseMultilinearExtension::rand_with_config(dim * 3, 1 << dim, rng);
    let entries: Vec<(usize, Scalar)> =
        sparse.evaluations.iter().map(|(k, v)| (*k, to_scalar(*v))).collect();
    let f1 = SparsePoly { num_vars: dim * 3, entries };
    (f1, build_random_poly(dim, rng), build_random_poly(dim, rng))
}

#[test]
fn test_gkrfold_batches_grid() {
    // Batch sizes across the powers of two, with modest table sizes: the
    // full folding round trip must accept with matching seeds.
    let ns = [1, 2, 4, 8, 16];
    let ls = [2, 4, 8];
    for &n in &ns {
        for &l in &ls {
            println!("test_gkrfold n={} l={}", n, l);
            let mut rng = StdRng::seed_from_u64(99);
            let mut instances = Vec::with_capacity(n);
            for _ in 0..n {
                let (f1, f2, f3) = random_gkr_instance(l, &mut rng);
                let g: Vec<Scalar> = (0..l).map(|_| to_scalar(Fr::rand(&mut rng))).collect();

                let inst = GKRFoldInstance { f1, f2, f3, g };
                instances.push(inst);
            }

            let mut sumfold_rng = StdRng::seed_from_u64(122);
            let gkrfold_proof = gkrfold(instances, &mut rng, &mut sumfold_rng).unwrap();

            let mut verifier_rng = StdRng::seed_from_u64(122);
            let verified = SumFoldProof::verify(&gkrfold_proof, &mut verifier_rng).unwrap();
            assert!(verified, "Failed at n={} l={}", n, l);
        }
    }
}

#[test]
fn test_gkrfold_small_batches() {
    // A single GKR round already folds into two instances; a pair folds
    // into four.
    for &n in &[1usize, 2] {
        let l = 2usize;
        let mut rng = StdRng::seed_from_u64(99);
        let mut instances = Vec::with_capacity(n);
        for _ in 0..n {
            let (f1, f2, f3) = random_gkr_instance(l, &mut rng);
            let g: Vec<Scalar> = (0..l).map(|_| to_scalar(Fr::rand(&mut rng))).collect();
            instances.push(GKRFoldInstance { f1, f2, f3, g });
        }
        let mut sumfold_rng = StdRng::seed_from_u64(122);
        let proof = gkrfold(instances, &mut rng, &mut sumfold_rng).unwrap();
        assert_eq!(proof.instances.len(), 2 * n);
        assert_eq!(proof.fj_poly.len(), 2);
        let mut verifier_rng = StdRng::seed_from_u64(122);
        assert!(proof.verify(&mut verifier_rng).unwrap());
    }
}

#[test]
fn test_gkrfold_large_arity() {
    // The widest tables the per-test budget allows: value extensions of
    // 2^16 entries, batched one and two rounds at a time.
    for &n in &[1usize, 2] {
        let l = 16usize;
        let mut rng = StdRng::seed_from_u64(99);
        let mut instances = Vec::with_capacity(n);
        for _ in 0..n {
            let (f1, f2, f3) = random_gkr_instance(l, &mut rng);
            let g: Vec<Scalar> = (0..l).map(|_| to_scalar(Fr::rand(&mut rng))).collect();
            instances.push(GKRFoldInstance { f1, f2, f3, g });
        }
        let mut sumfold_rng = StdRng::seed_from_u64(122);
        let proof = gkrfold(instances, &mut rng, &mut sumfold_rng).unwrap();
        let mut verifier_rng = StdRng::seed_from_u64(122);
        assert!(proof.verify(&mut verifier_rng).unwrap(), "Failed at n={} l={}", n, l);
    }
}
