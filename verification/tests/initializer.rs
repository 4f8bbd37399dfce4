use nn::{Matrix, ParamVisitor, RandomSource, Scalar, XavierInitializer};

/// The concrete element type the tests train with: a plain 64-bit float.
#[derive(Clone, Copy, Debug, PartialEq)]
struct F(f64);

impl Scalar for F {
    fn zero() -> Self {
        F(0.0)
    }
    fn of_usize(n: usize) -> Self {
        F(n as f64)
    }
    fn plus(self, other: Self) -> Self {
        F(self.0 + other.0)
    }
    fn minus(self, other: Self) -> Self {
        F(self.0 - other.0)
    }
    fn times(self, other: Self) -> Self {
        F(self.0 * other.0)
    }
    fn div_by(self, other: Self) -> Self {
        F(self.0 / other.0)
    }
    fn neg(self) -> Self {
        F(-self.0)
    }
    fn max_with(self, other: Self) -> Self {
        F(self.0.max(other.0))
    }
    fn is_positive(self) -> bool {
        self.0 > 0.0
    }
    fn exp(self) -> Self {
        F(self.0.exp())
    }
    fn ln(self) -> Self {
        F(self.0.ln())
    }
    fn sqrt(self) -> Self {
        F(self.0.sqrt())
    }

    // For a concrete number type the specification twins are the
    // operations themselves.
    fn zero_spec() -> Self {
        F(0.0)
    }
    fn of_usize_spec(n: usize) -> Self {
        F(n as f64)
    }
    fn plus_spec(self, other: Self) -> Self {
        F(self.0 + other.0)
    }
    fn minus_spec(self, other: Self) -> Self {
        F(self.0 - other.0)
    }
    fn times_spec(self, other: Self) -> Self {
        F(self.0 * other.0)
    }
    fn div_by_spec(self, other: Self) -> Self {
        F(self.0 / other.0)
    }
    fn neg_spec(self) -> Self {
        F(-self.0)
    }
    fn max_with_spec(self, other: Self) -> Self {
        F(self.0.max(other.0))
    }
    fn is_positive_spec(self) -> bool {
        self.0 > 0.0
    }
    fn exp_spec(self) -> Self {
        F(self.0.exp())
    }
    fn ln_spec(self) -> Self {
        F(self.0.ln())
    }
    fn sqrt_spec(self) -> Self {
        F(self.0.sqrt())
    }
}

/// A deterministic stand-in for a normal sampler: returns 1, 2, 3, ...
struct CountingSource {
    next: f64,
}

impl RandomSource<F> for CountingSource {
    fn sample_standard_normal(&mut self) -> F {
        self.next += 1.0;
        F(self.next)
    }
}

#[test]
fn xavier_scales_each_draw_by_the_fan_dependent_deviation() {
    // A 3-by-5 weight matrix has fan sum 8, so the standard deviation is
    // sqrt(2/8) = 1/2 exactly; with draws 1, 2, 3, ... the elements become
    // 0.5, 1.0, 1.5, ...
    let mut init = XavierInitializer::new(CountingSource { next: 0.0 });
    let mut weights = Matrix::filled(3, 5, F(7.0));
    let grad = Matrix::filled(3, 5, F(0.0));
    init.visit_array2_with_grad(&mut weights, &grad).unwrap();
    assert_eq!((weights.rows, weights.cols), (3, 5));
    for k in 0..15 {
        assert_eq!(weights.data[k], F(0.5 * (k as f64 + 1.0)));
    }
}

#[test]
fn xavier_sets_biases_to_zero() {
    let mut init = XavierInitializer::new(CountingSource { next: 0.0 });
    let mut bias = vec![F(3.0), F(-1.0), F(4.0)];
    let grad = vec![F(0.0); 3];
    init.visit_array1_with_grad(&mut bias, &grad).unwrap();
    assert_eq!(bias, vec![F(0.0), F(0.0), F(0.0)]);
}

#[test]
fn xavier_consumes_one_draw_per_weight_element() {
    let mut init = XavierInitializer::new(CountingSource { next: 0.0 });
    let grad = Matrix::filled(2, 2, F(0.0));
    let mut first = Matrix::filled(2, 2, F(0.0));
    init.visit_array2_with_grad(&mut first, &grad).unwrap();
    let mut second = Matrix::filled(2, 2, F(0.0));
    init.visit_array2_with_grad(&mut second, &grad).unwrap();
    // The source keeps advancing across visits: 4 draws, then 4 more, each
    // scaled by sqrt(2/4).
    let s = 0.5f64.sqrt();
    assert!((first.data[0].0 - s).abs() < 1e-15);
    assert!((first.data[3].0 - 4.0 * s).abs() < 1e-14);
    assert!((second.data[0].0 - 5.0 * s).abs() < 1e-14);
    assert!((second.data[3].0 - 8.0 * s).abs() < 1e-14);
}
