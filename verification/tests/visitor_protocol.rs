use nn::{Matrix, Network, NnError, ParamVisitor, Parameterized, Scalar, SGD};

/// The concrete element type the tests train with: a plain 64-bit float.
#[derive(Clone, Copy, Debug, PartialEq)]
struct F(f64);

impl Scalar for F {
    fn zero() -> Self {
        F(0.0)
    }
    fn of_usize(n: usize) -> Self {
        F(n as f64)
    }
    fn plus(self, other: Self) -> Self {
        F(self.0 + other.0)
    }
    fn minus(self, other: Self) -> Self {
        F(self.0 - other.0)
    }
    fn times(self, other: Self) -> Self {
        F(self.0 * other.0)
    }
    fn div_by(self, other: Self) -> Self {
        F(self.0 / other.0)
    }
    fn neg(self) -> Self {
        F(-self.0)
    }
    fn max_with(self, other: Self) -> Self {
        F(self.0.max(other.0))
    }
    fn is_positive(self) -> bool {
        self.0 > 0.0
    }
    fn exp(self) -> Self {
        F(self.0.exp())
    }
    fn ln(self) -> Self {
        F(self.0.ln())
    }
    fn sqrt(self) -> Self {
        F(self.0.sqrt())
    }

    // For a concrete number type the specification twins are the
    // operations themselves.
    fn zero_spec() -> Self {
        F(0.0)
    }
    fn of_usize_spec(n: usize) -> Self {
        F(n as f64)
    }
    fn plus_spec(self, other: Self) -> Self {
        F(self.0 + other.0)
    }
    fn minus_spec(self, other: Self) -> Self {
        F(self.0 - other.0)
    }
    fn times_spec(self, other: Self) -> Self {
        F(self.0 * other.0)
    }
    fn div_by_spec(self, other: Self) -> Self {
        F(self.0 / other.0)
    }
    fn neg_spec(self) -> Self {
        F(-self.0)
    }
    fn max_with_spec(self, other: Self) -> Self {
        F(self.0.max(other.0))
    }
    fn is_positive_spec(self) -> bool {
        self.0 > 0.0
    }
    fn exp_spec(self) -> Self {
        F(self.0.exp())
    }
    fn ln_spec(self) -> Self {
        F(self.0.ln())
    }
    fn sqrt_spec(self) -> Self {
        F(self.0.sqrt())
    }
}

/// A visitor defined outside the library, as an optimizer would be.
struct Recorder {
    rank2_shapes: Vec<(usize, usize)>,
    rank1_lens: Vec<usize>,
}

impl ParamVisitor<F> for Recorder {
    // Specification-only items of the visitor protocol; erased from
    // runtime behavior and never called.
    fn visit2_post(
        _pre: Self,
        _post: Self,
        _param_pre: Matrix<F>,
        _param_post: Matrix<F>,
        _grad: Matrix<F>,
    ) -> bool {
        true
    }

    fn visit1_post(
        _pre: Self,
        _post: Self,
        _param_pre: Vec<F>,
        _param_post: Vec<F>,
        _grad: Vec<F>,
    ) -> bool {
        true
    }

    fn visit_array2_with_grad(
        &mut self,
        param: &mut Matrix<F>,
        _grad: &Matrix<F>,
    ) -> Result<(), NnError> {
        self.rank2_shapes.push((param.rows, param.cols));
        Ok(())
    }

    fn visit_array1_with_grad(
        &mut self,
        param: &mut Vec<F>,
        _grad: &Vec<F>,
    ) -> Result<(), NnError> {
        self.rank1_lens.push(param.len());
        Ok(())
    }
}

#[test]
fn sgd_visit_steps_against_gradient() {
    let mut opt = SGD::new(F(0.5));
    let mut param = Matrix::from_vec(2, 2, vec![F(1.0), F(2.0), F(3.0), F(4.0)]).unwrap();
    let grad = Matrix::from_vec(2, 2, vec![F(2.0), F(0.0), F(-2.0), F(4.0)]).unwrap();
    opt.visit_array2_with_grad(&mut param, &grad).unwrap();
    assert_eq!(param.get(0, 0), F(0.0));
    assert_eq!(param.get(0, 1), F(2.0));
    assert_eq!(param.get(1, 0), F(4.0));
    assert_eq!(param.get(1, 1), F(2.0));

    let mut bias = vec![F(1.0), F(1.0)];
    let bias_grad = vec![F(2.0), F(-2.0)];
    opt.visit_array1_with_grad(&mut bias, &bias_grad).unwrap();
    assert_eq!(bias, vec![F(0.0), F(2.0)]);
}

#[test]
fn network_visits_parameters_in_layer_order() {
    let mut net: Network<F> = Network::new(4, 3, 2, 5);
    let mut rec = Recorder { rank2_shapes: Vec::new(), rank1_lens: Vec::new() };
    net.visit_params(&mut rec).unwrap();
    // Weights then bias, one linear layer after the other, the same walk
    // on every call.
    assert_eq!(rec.rank2_shapes, vec![(3, 4), (2, 3), (5, 2)]);
    assert_eq!(rec.rank1_lens, vec![3, 2, 5]);
    let mut again = Recorder { rank2_shapes: Vec::new(), rank1_lens: Vec::new() };
    net.visit_params(&mut again).unwrap();
    assert_eq!(again.rank2_shapes, rec.rank2_shapes);
    assert_eq!(again.rank1_lens, rec.rank1_lens);
}

#[test]
fn outside_visitor_sees_plain_tensors() {
    let mut rec = Recorder { rank2_shapes: Vec::new(), rank1_lens: Vec::new() };
    let mut param = Matrix::filled(3, 2, F(0.0));
    let grad = Matrix::filled(3, 2, F(0.0));
    rec.visit_array2_with_grad(&mut param, &grad).unwrap();
    let mut bias = vec![F(0.0); 3];
    let bias_grad = vec![F(0.0); 3];
    rec.visit_array1_with_grad(&mut bias, &bias_grad).unwrap();
    assert_eq!(rec.rank2_shapes, vec![(3, 2)]);
    assert_eq!(rec.rank1_lens, vec![3]);
}
