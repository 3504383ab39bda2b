use sumfold::field::Scalar;
use sumfold::mle::MlePoly;
use sumfold::sumfold::fj_poly::build_fj_polynomial;
use sumfold::sumfold::fj_poly::evaluate_fj;
use sumfold::sumfold::utils::build_random_poly;
use sumfold::sumfold::Error;
use ark_std::rand::rngs::StdRng;
use ark_std::rand::SeedableRng;

fn log2_usize(n: usize) -> usize {
    let mut nu = 0usize;
    let mut p = 1usize;
    while p < n {
        p *= 2;
        nu += 1;
    }
    nu
}

fn check_build_fj_polynomial(n: usize, x: usize) {
    println!("test_build_fj_polynomial n={} x={}", n, x);
    let nu = log2_usize(n);
    let l = log2_usize(x);
    let mut rng = StdRng::seed_from_u64(99);

    let gs_for_j: Vec<MlePoly> = (0..n).map(|_| build_random_poly(l, &mut rng)).collect();

    let f_j = build_fj_polynomial(&gs_for_j).unwrap();
    assert_eq!(f_j.num_vars, nu + l);
    for bv in 0..n {
        for xv in 0..x {
            let expect = gs_for_j[bv].evaluations[xv];
            let actual = evaluate_fj(&f_j, bv, xv, l);
            assert_eq!(actual, expect, "Failed at bv={}, xv={}", bv, xv);
        }
    }
}

#[test]
fn test_build_fj_polynomial_correctness() {
    check_build_fj_polynomial(2, 4);
    check_build_fj_polynomial(4, 4);
    check_build_fj_polynomial(8, 8);
    check_build_fj_polynomial(8, 4);
}

#[test]
fn test_build_fj_exact_concatenation() {
    // Two inputs of one variable each: the selector table is their
    // concatenation, the selecting bit in front.
    let g0 = MlePoly {
        num_vars: 1,
        evaluations: vec![Scalar::from_u64(10), Scalar::from_u64(11)],
    };
    let g1 = MlePoly {
        num_vars: 1,
        evaluations: vec![Scalar::from_u64(20), Scalar::from_u64(21)],
    };
    let f = build_fj_polynomial(&vec![g0, g1]).unwrap();
    assert_eq!(f.num_vars, 2);
    let expect: Vec<u64> = vec![10, 11, 20, 21];
    for (i, v) in expect.iter().enumerate() {
        assert_eq!(f.evaluations[i], Scalar::from_u64(*v));
    }
    assert_eq!(evaluate_fj(&f, 1, 0, 1), Scalar::from_u64(20));
    assert_eq!(evaluate_fj(&f, 0, 1, 1), Scalar::from_u64(11));
}

#[test]
fn test_build_fj_rejects_bad_shapes() {
    let g = |k: usize| MlePoly {
        num_vars: 1,
        evaluations: vec![Scalar::from_u64(k as u64), Scalar::from_u64(k as u64 + 1)],
    };
    // Three inputs: not a power of two.
    let r = build_fj_polynomial(&vec![g(1), g(2), g(3)]);
    assert!(matches!(r, Err(Error::NotPowerOfTwo)));
    // Mismatched arity.
    let small = MlePoly { num_vars: 0, evaluations: vec![Scalar::from_u64(5)] };
    let r = build_fj_polynomial(&vec![g(1), small]);
    assert!(matches!(r, Err(Error::DimensionMismatch)));
    // The empty list is not a power of two either.
    let r = build_fj_polynomial(&Vec::new());
    assert!(matches!(r, Err(Error::NotPowerOfTwo)));
}
