use nn::{CrossEntropy, LossFunction, Matrix, NnError, Scalar, MSE};

/// The concrete element type the tests train with: a plain 64-bit float.
#[derive(Clone, Copy, Debug, PartialEq)]
struct F(f64);

impl Scalar for F {
    fn zero() -> Self {
        F(0.0)
    }
    fn of_usize(n: usize) -> Self {
        F(n as f64)
    }
    fn plus(self, other: Self) -> Self {
        F(self.0 + other.0)
    }
    fn minus(self, other: Self) -> Self {
        F(self.0 - other.0)
    }
    fn times(self, other: Self) -> Self {
        F(self.0 * other.0)
    }
    fn div_by(self, other: Self) -> Self {
        F(self.0 / other.0)
    }
    fn neg(self) -> Self {
        F(-self.0)
    }
    fn max_with(self, other: Self) -> Self {
        F(self.0.max(other.0))
    }
    fn is_positive(self) -> bool {
        self.0 > 0.0
    }
    fn exp(self) -> Self {
        F(self.0.exp())
    }
    fn ln(self) -> Self {
        F(self.0.ln())
    }
    fn sqrt(self) -> Self {
        F(self.0.sqrt())
    }

    // For a concrete number type the specification twins are the
    // operations themselves.
    fn zero_spec() -> Self {
        F(0.0)
    }
    fn of_usize_spec(n: usize) -> Self {
        F(n as f64)
    }
    fn plus_spec(self, other: Self) -> Self {
        F(self.0 + other.0)
    }
    fn minus_spec(self, other: Self) -> Self {
        F(self.0 - other.0)
    }
    fn times_spec(self, other: Self) -> Self {
        F(self.0 * other.0)
    }
    fn div_by_spec(self, other: Self) -> Self {
        F(self.0 / other.0)
    }
    fn neg_spec(self) -> Self {
        F(-self.0)
    }
    fn max_with_spec(self, other: Self) -> Self {
        F(self.0.max(other.0))
    }
    fn is_positive_spec(self) -> bool {
        self.0 > 0.0
    }
    fn exp_spec(self) -> Self {
        F(self.0.exp())
    }
    fn ln_spec(self) -> Self {
        F(self.0.ln())
    }
    fn sqrt_spec(self) -> Self {
        F(self.0.sqrt())
    }
}

fn mat(rows: usize, cols: usize, vals: &[f64]) -> Matrix<F> {
    Matrix::from_vec(rows, cols, vals.iter().map(|&x| F(x)).collect()).unwrap()
}

#[test]
fn mse_of_identical_tensors_is_zero() {
    let cases = [
        mat(1, 1, &[0.0]),
        mat(2, 3, &[1.5, -2.25, 0.0, 7.0, -0.125, 3.75]),
        mat(3, 1, &[-1e9, 42.0, 1e-9]),
    ];
    for p in cases {
        let mut mse = MSE::new();
        assert_eq!(mse.forward(&p, &p).unwrap(), F(0.0));
    }
}

#[test]
fn mse_value_and_gradient_are_exact() {
    // Differences are [3, -1, 2, -2]; mean square = (9+1+4+4)/4 = 4.5.
    let p = mat(2, 2, &[4.0, 1.0, 3.0, -1.0]);
    let t = mat(2, 2, &[1.0, 2.0, 1.0, 1.0]);
    let mut mse = MSE::new();
    assert_eq!(mse.forward(&p, &t).unwrap(), F(4.5));

    // Gradient is (2/4) * diff.
    let g = mse.backward().unwrap();
    assert_eq!((g.rows, g.cols), (2, 2));
    assert_eq!(g.get(0, 0), F(1.5));
    assert_eq!(g.get(0, 1), F(-0.5));
    assert_eq!(g.get(1, 0), F(1.0));
    assert_eq!(g.get(1, 1), F(-1.0));
}

#[test]
fn mse_backward_has_the_shape_of_the_prediction() {
    for (rows, cols) in [(1usize, 1usize), (3, 4), (5, 2)] {
        let p = Matrix::filled(rows, cols, F(0.75));
        let t = Matrix::filled(rows, cols, F(-0.25));
        let mut mse = MSE::new();
        mse.forward(&p, &t).unwrap();
        let g = mse.backward().unwrap();
        assert_eq!((g.rows, g.cols), (rows, cols));
    }
}

#[test]
fn mse_scales_quadratically_under_uniform_scaling() {
    let p = mat(2, 2, &[4.0, 1.0, 3.0, -1.0]);
    let t = mat(2, 2, &[1.0, 2.0, 1.0, 1.0]);
    let mut mse = MSE::new();
    let base = mse.forward(&p, &t).unwrap().0;
    for s in [2.0, 3.0, 10.0, 0.5] {
        let ps = mat(2, 2, &[4.0 * s, 1.0 * s, 3.0 * s, -1.0 * s]);
        let ts = mat(2, 2, &[1.0 * s, 2.0 * s, 1.0 * s, 1.0 * s]);
        let mut scaled = MSE::new();
        let loss = scaled.forward(&ps, &ts).unwrap().0;
        assert!((loss - s * s * base).abs() < 1e-9 * s * s * base.abs());
    }
}

#[test]
fn mse_rejects_shape_mismatch_and_reports_both_shapes() {
    let p = mat(2, 2, &[0.0; 4]);
    let t = mat(2, 3, &[0.0; 6]);
    let mut mse = MSE::new();
    assert_eq!(
        mse.forward(&p, &t),
        Err(NnError::ShapeMismatch {
            expected_rows: 2,
            expected_cols: 2,
            actual_rows: 2,
            actual_cols: 3,
        })
    );
    // A rejected forward caches nothing.
    assert_eq!(mse.backward(), Err(NnError::PreconditionViolation));
}

#[test]
fn loss_backward_before_forward_is_a_precondition_violation() {
    let mse: MSE<F> = MSE::new();
    assert_eq!(mse.backward(), Err(NnError::PreconditionViolation));
    let ce: CrossEntropy<F> = CrossEntropy::new();
    assert_eq!(ce.backward(), Err(NnError::PreconditionViolation));
}

#[test]
fn softmax_probabilities_sum_to_one_per_column() {
    let logits = mat(3, 4, &[
        2.0, -30.0, 800.0, 0.0,
        -1.0, 5.5, 799.0, 0.0,
        0.5, -2.0, 300.0, 0.0,
    ]);
    let target = mat(3, 4, &[
        1.0, 0.0, 0.0, 1.0,
        0.0, 1.0, 0.0, 0.0,
        0.0, 0.0, 1.0, 0.0,
    ]);
    let mut ce = CrossEntropy::new();
    let loss = ce.forward(&logits, &target).unwrap().0;
    assert!(loss.is_finite());
    assert!(loss >= 0.0);
    let probs = ce.last_probs.as_ref().unwrap();
    for j in 0..4 {
        let mut sum = 0.0;
        for i in 0..3 {
            let p = probs.get(i, j).0;
            assert!((0.0..=1.0).contains(&p));
            sum += p;
        }
        assert!((sum - 1.0).abs() < 1e-12, "column {j} sums to {sum}");
    }
}

#[test]
fn cross_entropy_loss_vanishes_with_confidence() {
    // As the logit margin for the correct class grows, loss tends to zero.
    let target = mat(2, 1, &[1.0, 0.0]);
    let mut previous = f64::INFINITY;
    for margin in [1.0, 5.0, 10.0, 30.0] {
        let logits = mat(2, 1, &[margin, 0.0]);
        let mut ce = CrossEntropy::new();
        let loss = ce.forward(&logits, &target).unwrap().0;
        assert!(loss >= 0.0);
        assert!(loss < previous);
        previous = loss;
    }
    assert!(previous < 1e-12);
}

#[test]
fn cross_entropy_loss_value_is_exact_for_a_uniform_column() {
    // Two equal logits give probabilities one half, so the loss is
    // -ln(1/2 + 1e-15), within rounding ln(2).
    let logits = mat(2, 1, &[3.0, 3.0]);
    let target = mat(2, 1, &[1.0, 0.0]);
    let mut ce = CrossEntropy::new();
    let loss = ce.forward(&logits, &target).unwrap().0;
    assert!((loss - 2.0f64.ln()).abs() < 1e-12);
}

#[test]
fn cross_entropy_gradient_is_probs_minus_target_over_batch() {
    let logits = mat(2, 2, &[1.0, -4.0, 1.0, 2.0]);
    let target = mat(2, 2, &[1.0, 0.0, 0.0, 1.0]);
    let mut ce = CrossEntropy::new();
    ce.forward(&logits, &target).unwrap();
    let probs = ce.last_probs.as_ref().unwrap().clone();
    let g = ce.backward().unwrap();
    assert_eq!((g.rows, g.cols), (2, 2));
    for i in 0..2 {
        for j in 0..2 {
            let expected = (probs.get(i, j).0 - target.get(i, j).0) / 2.0;
            assert!((g.get(i, j).0 - expected).abs() < 1e-15);
        }
    }
    // First column has equal logits: probabilities one half each.
    assert!((probs.get(0, 0).0 - 0.5).abs() < 1e-12);
    assert!((probs.get(1, 0).0 - 0.5).abs() < 1e-12);
}

#[test]
fn cross_entropy_rejects_shape_mismatch() {
    let p = mat(3, 2, &[0.0; 6]);
    let t = mat(2, 2, &[0.0; 4]);
    let mut ce = CrossEntropy::new();
    assert_eq!(
        ce.forward(&p, &t),
        Err(NnError::ShapeMismatch {
            expected_rows: 3,
            expected_cols: 2,
            actual_rows: 2,
            actual_cols: 2,
        })
    );
}
