use sumfold::field::Scalar;
use sumfold::sumfold::q_poly::build_Q_polynomial;
use ark_std::rand::rngs::StdRng;
use ark_std::rand::Rng;
use ark_std::rand::SeedableRng;

fn log2_usize(n: usize) -> usize {
    let mut nu = 0usize;
    let mut p = 1usize;
    while p < n {
        p *= 2;
        nu += 1;
    }
    nu
}

#[allow(non_snake_case)]
fn check_build_Q_polynomial_simple(n: usize) {
    println!("test_build_Q_polynomial_simple n={}", n);
    let nu = log2_usize(n);
    let mut rng = StdRng::seed_from_u64(111);

    let random_u64: u64 = rng.gen::<u64>();
    let rho = (random_u64 as usize) % n;

    println!("rho: {}", rho);

    let t = Scalar::from_u64(rng.gen::<u64>());

    let q = build_Q_polynomial(&t, rho, nu);

    for i in 0..n {
        if i == rho {
            assert_eq!(q.evaluations[i], t, "Q should evaluate to T at rho");
        } else {
            assert_eq!(q.evaluations[i], Scalar::zero(), "Q should evaluate to 0 elsewhere");
        }
    }
}

#[allow(non_snake_case)]
#[test]
fn test_build_Q_poly() {
    for _ in 0..10 {
        check_build_Q_polynomial_simple(2);
        check_build_Q_polynomial_simple(8);
        check_build_Q_polynomial_simple(16);
    }
}

#[test]
fn test_indicator_exact_table() {
    let q = build_Q_polynomial(&Scalar::from_u64(7), 2, 2);
    assert_eq!(q.num_vars, 2);
    assert_eq!(q.evaluations.len(), 4);
    let expect: Vec<u64> = vec![0, 0, 7, 0];
    for (i, v) in expect.iter().enumerate() {
        assert_eq!(q.evaluations[i], Scalar::from_u64(*v));
    }
}
