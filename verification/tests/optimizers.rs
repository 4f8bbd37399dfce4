use nn::{Matrix, NnError, ParamVisitor, Scalar, SGDMomentum};

/// The concrete element type the tests train with: a plain 64-bit float.
#[derive(Clone, Copy, Debug, PartialEq)]
struct F(f64);

impl Scalar for F {
    fn zero() -> Self {
        F(0.0)
    }
    fn of_usize(n: usize) -> Self {
        F(n as f64)
    }
    fn plus(self, other: Self) -> Self {
        F(self.0 + other.0)
    }
    fn minus(self, other: Self) -> Self {
        F(self.0 - other.0)
    }
    fn times(self, other: Self) -> Self {
        F(self.0 * other.0)
    }
    fn div_by(self, other: Self) -> Self {
        F(self.0 / other.0)
    }
    fn neg(self) -> Self {
        F(-self.0)
    }
    fn max_with(self, other: Self) -> Self {
        F(self.0.max(other.0))
    }
    fn is_positive(self) -> bool {
        self.0 > 0.0
    }
    fn exp(self) -> Self {
        F(self.0.exp())
    }
    fn ln(self) -> Self {
        F(self.0.ln())
    }
    fn sqrt(self) -> Self {
        F(self.0.sqrt())
    }

    // For a concrete number type the specification twins are the
    // operations themselves.
    fn zero_spec() -> Self {
        F(0.0)
    }
    fn of_usize_spec(n: usize) -> Self {
        F(n as f64)
    }
    fn plus_spec(self, other: Self) -> Self {
        F(self.0 + other.0)
    }
    fn minus_spec(self, other: Self) -> Self {
        F(self.0 - other.0)
    }
    fn times_spec(self, other: Self) -> Self {
        F(self.0 * other.0)
    }
    fn div_by_spec(self, other: Self) -> Self {
        F(self.0 / other.0)
    }
    fn neg_spec(self) -> Self {
        F(-self.0)
    }
    fn max_with_spec(self, other: Self) -> Self {
        F(self.0.max(other.0))
    }
    fn is_positive_spec(self) -> bool {
        self.0 > 0.0
    }
    fn exp_spec(self) -> Self {
        F(self.0.exp())
    }
    fn ln_spec(self) -> Self {
        F(self.0.ln())
    }
    fn sqrt_spec(self) -> Self {
        F(self.0.sqrt())
    }
}

#[test]
fn momentum_velocity_persists_across_passes() {
    let mut opt = SGDMomentum::new(F(0.1), F(0.9));
    let mut param = Matrix::filled(2, 2, F(1.0));
    let grad = Matrix::filled(2, 2, F(1.0));

    // First pass: the buffer is created lazily, v = 0.9 * 0 + 1 = 1.
    opt.start_pass();
    opt.visit_array2_with_grad(&mut param, &grad).unwrap();
    assert_eq!(opt.rank2_velocity_count(), 1);
    assert_eq!(opt.rank2_velocity(0).get(0, 0), F(1.0));
    assert_eq!(param.get(0, 0), F(1.0 - 0.1));

    // Second pass with the identical gradient: the same buffer is updated,
    // v = 0.9 * 1 + 1 = 1.9, not reset to 1.
    opt.start_pass();
    opt.visit_array2_with_grad(&mut param, &grad).unwrap();
    assert_eq!(opt.rank2_velocity_count(), 1);
    assert!((opt.rank2_velocity(0).get(1, 1).0 - 1.9).abs() < 1e-12);
    assert!((param.get(1, 1).0 - (0.9 - 0.1 * 1.9)).abs() < 1e-12);

    // Third pass: v = 0.9 * 1.9 + 1 = 2.71.
    opt.start_pass();
    opt.visit_array2_with_grad(&mut param, &grad).unwrap();
    assert_eq!(opt.rank2_velocity_count(), 1);
    assert!((opt.rank2_velocity(0).get(0, 1).0 - 2.71).abs() < 1e-12);
}

#[test]
fn nth_visit_updates_nth_buffer_in_every_pass() {
    let mut opt = SGDMomentum::new(F(0.1), F(0.9));
    let mut first = Matrix::filled(3, 2, F(0.0));
    let first_grad = Matrix::filled(3, 2, F(1.0));
    let mut second = Matrix::filled(4, 5, F(0.0));
    let second_grad = Matrix::filled(4, 5, F(2.0));
    let mut bias = vec![F(0.0); 3];
    let bias_grad = vec![F(1.0); 3];

    for pass in 1..=3u32 {
        opt.start_pass();
        opt.visit_array2_with_grad(&mut first, &first_grad).unwrap();
        opt.visit_array1_with_grad(&mut bias, &bias_grad).unwrap();
        opt.visit_array2_with_grad(&mut second, &second_grad).unwrap();

        // The buffer lists never grow past one buffer per parameter, and
        // buffer N keeps the shape of the Nth visited parameter.
        assert_eq!(opt.rank2_velocity_count(), 2);
        assert_eq!(opt.rank1_velocity_count(), 1);
        let v0 = opt.rank2_velocity(0);
        let v1 = opt.rank2_velocity(1);
        assert_eq!((v0.rows, v0.cols), (3, 2));
        assert_eq!((v1.rows, v1.cols), (4, 5));

        // Geometric accumulation distinguishes the buffers: after pass k,
        // v = g * (1 + 0.9 + ... + 0.9^(k-1)).
        let factor: f64 = (0..pass).map(|e| 0.9f64.powi(e as i32)).sum();
        assert!((v0.get(0, 0).0 - factor).abs() < 1e-12);
        assert!((v1.get(0, 0).0 - 2.0 * factor).abs() < 1e-12);
        assert!((opt.rank1_velocity(0)[0].0 - factor).abs() < 1e-12);
    }
}

#[test]
fn momentum_rejects_desynchronized_visit_order() {
    let mut opt = SGDMomentum::new(F(0.1), F(0.9));
    let mut first = Matrix::filled(3, 2, F(0.0));
    let first_grad = Matrix::filled(3, 2, F(1.0));
    let mut second = Matrix::filled(4, 5, F(0.0));
    let second_grad = Matrix::filled(4, 5, F(1.0));

    opt.start_pass();
    opt.visit_array2_with_grad(&mut first, &first_grad).unwrap();
    opt.visit_array2_with_grad(&mut second, &second_grad).unwrap();

    // Swapping the visit order pairs the second parameter with the first
    // buffer; the optimizer reports the stale buffer's shape instead of
    // updating the wrong parameter.
    opt.start_pass();
    assert_eq!(
        opt.visit_array2_with_grad(&mut second, &second_grad),
        Err(NnError::ShapeMismatch {
            expected_rows: 3,
            expected_cols: 2,
            actual_rows: 4,
            actual_cols: 5,
        })
    );
    // The rejected visit advanced nothing: the original order still works.
    opt.start_pass();
    opt.visit_array2_with_grad(&mut first, &first_grad).unwrap();
    opt.visit_array2_with_grad(&mut second, &second_grad).unwrap();
    assert_eq!(opt.rank2_velocity_count(), 2);
}

#[test]
fn momentum_rank1_buffers_track_their_own_cursor() {
    let mut opt = SGDMomentum::new(F(0.5), F(0.5));
    let mut bias = vec![F(2.0), F(4.0)];
    let bias_grad = vec![F(2.0), F(4.0)];

    opt.start_pass();
    opt.visit_array1_with_grad(&mut bias, &bias_grad).unwrap();
    // v = 0.5 * 0 + g = g; bias -= 0.5 * v.
    assert_eq!(bias, vec![F(1.0), F(2.0)]);
    assert_eq!(opt.rank1_velocity_count(), 1);
    assert_eq!(opt.rank1_velocity(0), &vec![F(2.0), F(4.0)]);

    let mut other = vec![F(0.0); 3];
    let other_grad = vec![F(1.0); 3];
    opt.visit_array1_with_grad(&mut other, &other_grad).unwrap();
    assert_eq!(opt.rank1_velocity_count(), 2);
    assert_eq!(opt.rank1_velocity(1).len(), 3);

    // A mismatched length on the next pass is rejected, reported as
    // n-by-1 shapes.
    opt.start_pass();
    assert_eq!(
        opt.visit_array1_with_grad(&mut other, &other_grad),
        Err(NnError::ShapeMismatch {
            expected_rows: 2,
            expected_cols: 1,
            actual_rows: 3,
            actual_cols: 1,
        })
    );
}
