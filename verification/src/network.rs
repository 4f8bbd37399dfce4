use vstd::prelude::*;

use crate::activation_layers::{gated, rectified, ReLU};
use crate::error::NnError;
use crate::layer::Layer;
use crate::param_layers::{affine_cell, linear_walked, LinearLayer};
use crate::scalar::Scalar;
use crate::tensor::Matrix;
use crate::tensor::{dot_cell_lhs_t, dot_cell_rhs_t, lemma_dot_cell_depends_on_views, row_total};
use crate::visitor::{ParamVisitor, Parameterized};

verus! {

/// A fixed composition of layers: linear, rectifier, linear, rectifier,
/// linear, hand-wired in that order. The network is itself a `Layer`
/// (forward chains the children's forwards, backward chains their
/// backwards in reverse) and `Parameterized` (delegating to the linear
/// children in layer order), so drivers, optimizers and initializers treat
/// it exactly like a single unit.
pub struct Network<A> {
    pub layer1: LinearLayer<A>,
    pub relu: ReLU<A>,
    pub layer2: LinearLayer<A>,
    pub relu2: ReLU<A>,
    pub layer3: LinearLayer<A>,
}

impl<A> Network<A> {
    /// Every child is well-formed and each adjacent pair agrees on its
    /// feature count.
    pub open spec fn well_formed(&self) -> bool {
        &&& self.layer1.well_formed()
        &&& self.relu.well_formed()
        &&& self.layer2.well_formed()
        &&& self.relu2.well_formed()
        &&& self.layer3.well_formed()
        &&& self.layer2.in_features() == self.layer1.out_features()
        &&& self.layer3.in_features() == self.layer2.out_features()
    }

    /// All five children cached one consistent chained forward pass: the
    /// cached shapes agree link by link, so a backward chain started with a
    /// well-shaped output gradient succeeds end to end.
    pub open spec fn chain_cached(&self) -> bool {
        &&& self.layer1.last_input is Some
        &&& self.relu.last_input is Some
        &&& self.layer2.last_input is Some
        &&& self.relu2.last_input is Some
        &&& self.layer3.last_input is Some
        &&& self.relu.last_input->0.rows as int == self.layer1.out_features()
        &&& self.relu.last_input->0.cols == self.layer1.last_input->0.cols
        &&& self.layer2.last_input->0.cols == self.relu.last_input->0.cols
        &&& self.relu.last_input->0.rows == self.layer2.last_input->0.rows
        &&& self.relu2.last_input->0.rows as int == self.layer2.out_features()
        &&& self.relu2.last_input->0.cols == self.layer2.last_input->0.cols
        &&& self.layer3.last_input->0.cols == self.relu2.last_input->0.cols
        &&& self.relu2.last_input->0.rows == self.layer3.last_input->0.rows
    }
}

/// Every weight and bias element of the three linear children is the zero
/// element.
pub open spec fn all_params_zero<A: Scalar>(net: Network<A>) -> bool {
    &&& forall|k: int|
        0 <= k < net.layer1.weights.data@.len() ==> #[trigger] net.layer1.weights.data@[k]
            == A::zero_spec()
    &&& forall|k: int|
        0 <= k < net.layer1.bias@.len() ==> #[trigger] net.layer1.bias@[k] == A::zero_spec()
    &&& forall|k: int|
        0 <= k < net.layer2.weights.data@.len() ==> #[trigger] net.layer2.weights.data@[k]
            == A::zero_spec()
    &&& forall|k: int|
        0 <= k < net.layer2.bias@.len() ==> #[trigger] net.layer2.bias@[k] == A::zero_spec()
    &&& forall|k: int|
        0 <= k < net.layer3.weights.data@.len() ==> #[trigger] net.layer3.weights.data@[k]
            == A::zero_spec()
    &&& forall|k: int|
        0 <= k < net.layer3.bias@.len() ==> #[trigger] net.layer3.bias@[k] == A::zero_spec()
}

/// Every gradient element of the three linear children is the zero
/// element.
pub open spec fn all_grads_zero<A: Scalar>(net: Network<A>) -> bool {
    &&& forall|k: int|
        0 <= k < net.layer1.weight_grad.data@.len() ==> #[trigger] net.layer1.weight_grad.data@[k]
            == A::zero_spec()
    &&& forall|k: int|
        0 <= k < net.layer1.bias_grad@.len() ==> #[trigger] net.layer1.bias_grad@[k]
            == A::zero_spec()
    &&& forall|k: int|
        0 <= k < net.layer2.weight_grad.data@.len() ==> #[trigger] net.layer2.weight_grad.data@[k]
            == A::zero_spec()
    &&& forall|k: int|
        0 <= k < net.layer2.bias_grad@.len() ==> #[trigger] net.layer2.bias_grad@[k]
            == A::zero_spec()
    &&& forall|k: int|
        0 <= k < net.layer3.weight_grad.data@.len() ==> #[trigger] net.layer3.weight_grad.data@[k]
            == A::zero_spec()
    &&& forall|k: int|
        0 <= k < net.layer3.bias_grad@.len() ==> #[trigger] net.layer3.bias_grad@[k]
            == A::zero_spec()
}

impl<A: Scalar> Network<A> {
    /// A fresh network mapping `input_features`-dimensional samples through
    /// two hidden widths to `output_features` outputs, with all parameters
    /// zero and no caches.
    pub fn new(
        input_features: usize,
        hidden1: usize,
        hidden2: usize,
        output_features: usize,
    ) -> (r: Network<A>)
        ensures
            r.well_formed(),
            r.layer1.in_features() == input_features,
            r.layer1.out_features() == hidden1,
            r.layer2.out_features() == hidden2,
            r.layer3.out_features() == output_features,
            !r.chain_cached(),
            all_params_zero(r),
            all_grads_zero(r),
    {
        Network {
            layer1: LinearLayer::new(hidden1, input_features),
            relu: ReLU::new(),
            layer2: LinearLayer::new(hidden2, hidden1),
            relu2: ReLU::new(),
            layer3: LinearLayer::new(output_features, hidden2),
        }
    }

    /// Whether the children hold one consistent chained forward cache;
    /// equivalent to the `chain_cached` predicate.
    fn cache_consistent(&self) -> (b: bool)
        ensures
            b == self.chain_cached(),
    {
        let x1 = match &self.layer1.last_input {
            Some(x) => x,
            None => {
                return false;
            },
        };
        let xr = match &self.relu.last_input {
            Some(x) => x,
            None => {
                return false;
            },
        };
        let x2 = match &self.layer2.last_input {
            Some(x) => x,
            None => {
                return false;
            },
        };
        let xr2 = match &self.relu2.last_input {
            Some(x) => x,
            None => {
                return false;
            },
        };
        let x3 = match &self.layer3.last_input {
            Some(x) => x,
            None => {
                return false;
            },
        };
        xr.rows == self.layer1.weights.rows && xr.cols == x1.cols && x2.cols == xr.cols && xr.rows
            == x2.rows && xr2.rows == self.layer2.weights.rows && xr2.cols == x2.cols && x3.cols
            == xr2.cols && xr2.rows == x3.rows
    }
}

/// One full reverse chain through the network for the output gradient
/// `g_out`: `g3` is layer3's input gradient; the second rectifier's cache
/// gates it into `g2`, which layer2 turns into `g1` while layer2's
/// gradients absorb their mean-over-batch contributions; the first
/// rectifier's cache gates `g1` into `g0`, which layer1 turns into
/// `result` while layer1's gradients absorb theirs. Layer3's own
/// accumulation is stated directly on `backward`, since its upstream
/// gradient is `g_out` itself.
pub open spec fn backward_chain<A: Scalar>(
    pre: Network<A>,
    post: Network<A>,
    g_out: Matrix<A>,
    g3: Matrix<A>,
    g2: Matrix<A>,
    g1: Matrix<A>,
    g0: Matrix<A>,
    result: Matrix<A>,
) -> bool {
    &&& g3.rows as int == pre.layer3.in_features()
    &&& g3.cols == pre.layer3.last_input->0.cols
    &&& forall|i: int, n: int|
        0 <= i < g3.rows && 0 <= n < g3.cols ==> #[trigger] g3.at(i, n) == dot_cell_lhs_t(
            pre.layer3.weights,
            g_out,
            i,
            n,
        )
    &&& g2.rows == g3.rows
    &&& g2.cols == g3.cols
    &&& g2.data@.len() == g3.data@.len()
    &&& forall|k: int|
        0 <= k < g2.data@.len() ==> #[trigger] g2.data@[k] == gated(
            g3.data@[k],
            pre.relu2.last_input->0.data@[k],
        )
    &&& g1.rows as int == pre.layer2.in_features()
    &&& g1.cols == pre.layer2.last_input->0.cols
    &&& forall|i: int, n: int|
        0 <= i < g1.rows && 0 <= n < g1.cols ==> #[trigger] g1.at(i, n) == dot_cell_lhs_t(
            pre.layer2.weights,
            g2,
            i,
            n,
        )
    &&& forall|o: int, i2: int|
        0 <= o < pre.layer2.out_features() && 0 <= i2 < pre.layer2.in_features()
            ==> #[trigger] post.layer2.weight_grad.at(o, i2) == pre.layer2.weight_grad.at(
            o,
            i2,
        ).plus_spec(
            dot_cell_rhs_t(g2, pre.layer2.last_input->0, o, i2).div_by_spec(
                A::of_usize_spec(pre.layer2.last_input->0.cols),
            ),
        )
    &&& forall|o: int|
        0 <= o < pre.layer2.out_features() ==> #[trigger] post.layer2.bias_grad@[o]
            == pre.layer2.bias_grad@[o].plus_spec(
            row_total(g2, o).div_by_spec(A::of_usize_spec(pre.layer2.last_input->0.cols)),
        )
    &&& g0.rows == g1.rows
    &&& g0.cols == g1.cols
    &&& g0.data@.len() == g1.data@.len()
    &&& forall|k: int|
        0 <= k < g0.data@.len() ==> #[trigger] g0.data@[k] == gated(
            g1.data@[k],
            pre.relu.last_input->0.data@[k],
        )
    &&& result.rows as int == pre.layer1.in_features()
    &&& result.cols == pre.layer1.last_input->0.cols
    &&& forall|i: int, n: int|
        0 <= i < result.rows && 0 <= n < result.cols ==> #[trigger] result.at(i, n)
            == dot_cell_lhs_t(pre.layer1.weights, g0, i, n)
    &&& forall|o: int, i2: int|
        0 <= o < pre.layer1.out_features() && 0 <= i2 < pre.layer1.in_features()
            ==> #[trigger] post.layer1.weight_grad.at(o, i2) == pre.layer1.weight_grad.at(
            o,
            i2,
        ).plus_spec(
            dot_cell_rhs_t(g0, pre.layer1.last_input->0, o, i2).div_by_spec(
                A::of_usize_spec(pre.layer1.last_input->0.cols),
            ),
        )
    &&& forall|o: int|
        0 <= o < pre.layer1.out_features() ==> #[trigger] post.layer1.bias_grad@[o]
            == pre.layer1.bias_grad@[o].plus_spec(
            row_total(g0, o).div_by_spec(A::of_usize_spec(pre.layer1.last_input->0.cols)),
        )
}

impl<A: Scalar> Layer<A> for Network<A> {
    open spec fn wf(&self) -> bool {
        self.well_formed()
    }

    open spec fn accepts(&self, rows: int) -> bool {
        rows == self.layer1.in_features()
    }

    open spec fn out_rows(&self, rows: int) -> int {
        self.layer3.out_features()
    }

    open spec fn cached(&self) -> bool {
        self.chain_cached()
    }

    open spec fn cached_rows(&self) -> int {
        self.layer1.last_input->0.rows as int
    }

    open spec fn cached_cols(&self) -> int {
        self.layer1.last_input->0.cols as int
    }

    fn forward(&mut self, input: &Matrix<A>) -> (r: Result<Matrix<A>, NnError>)
        ensures
            final(self).layer1.weights == old(self).layer1.weights,
            final(self).layer1.bias == old(self).layer1.bias,
            final(self).layer2.weights == old(self).layer2.weights,
            final(self).layer2.bias == old(self).layer2.bias,
            final(self).layer3.weights == old(self).layer3.weights,
            final(self).layer3.bias == old(self).layer3.bias,
            final(self).layer1.weight_grad == old(self).layer1.weight_grad,
            final(self).layer1.bias_grad == old(self).layer1.bias_grad,
            final(self).layer2.weight_grad == old(self).layer2.weight_grad,
            final(self).layer2.bias_grad == old(self).layer2.bias_grad,
            final(self).layer3.weight_grad == old(self).layer3.weight_grad,
            final(self).layer3.bias_grad == old(self).layer3.bias_grad,
            r is Ok ==> forall|o: int, n: int|
                0 <= o < old(self).layer1.out_features() && 0 <= n < input.cols
                    ==> #[trigger] final(self).relu.last_input->0.at(o, n) == affine_cell(
                    old(self).layer1.weights,
                    old(self).layer1.bias@,
                    *input,
                    o,
                    n,
                ),
            r is Ok ==> forall|k: int|
                0 <= k < final(self).layer2.last_input->0.data@.len()
                    ==> #[trigger] final(self).layer2.last_input->0.data@[k] == rectified(
                    final(self).relu.last_input->0.data@[k],
                ),
            r is Ok ==> forall|o: int, n: int|
                0 <= o < old(self).layer2.out_features() && 0 <= n < input.cols
                    ==> #[trigger] final(self).relu2.last_input->0.at(o, n) == affine_cell(
                    old(self).layer2.weights,
                    old(self).layer2.bias@,
                    final(self).layer2.last_input->0,
                    o,
                    n,
                ),
            r is Ok ==> forall|k: int|
                0 <= k < final(self).layer3.last_input->0.data@.len()
                    ==> #[trigger] final(self).layer3.last_input->0.data@[k] == rectified(
                    final(self).relu2.last_input->0.data@[k],
                ),
            r is Ok ==> forall|o: int, n: int|
                0 <= o < old(self).layer3.out_features() && 0 <= n < input.cols
                    ==> #[trigger] r->Ok_0.at(o, n) == affine_cell(
                    old(self).layer3.weights,
                    old(self).layer3.bias@,
                    final(self).layer3.last_input->0,
                    o,
                    n,
                ),
    {
        if input.rows != self.layer1.weights.cols {
            return Err(
                NnError::ShapeMismatch {
                    expected_rows: self.layer1.weights.cols,
                    expected_cols: input.cols,
                    actual_rows: input.rows,
                    actual_cols: input.cols,
                },
            );
        }
        let h1 = match self.layer1.forward(input) {
            Ok(h) => h,
            Err(e) => {
                return Err(e);
            },
        };
        let h2 = match self.relu.forward(&h1) {
            Ok(h) => h,
            Err(e) => {
                return Err(e);
            },
        };
        let h3 = match self.layer2.forward(&h2) {
            Ok(h) => h,
            Err(e) => {
                return Err(e);
            },
        };
        let h4 = match self.relu2.forward(&h3) {
            Ok(h) => h,
            Err(e) => {
                return Err(e);
            },
        };
        let h5 = match self.layer3.forward(&h4) {
            Ok(h) => h,
            Err(e) => {
                return Err(e);
            },
        };
        proof {
            // Stage one: the first rectifier's cache is layer1's affine
            // output of the network input.
            assert forall|o: int, n: int|
                0 <= o < old(self).layer1.out_features() && 0 <= n < input.cols
                    implies #[trigger] self.relu.last_input->0.at(o, n) == affine_cell(
                old(self).layer1.weights,
                old(self).layer1.bias@,
                *input,
                o,
                n,
            ) by {
                assert(h1.at(o, n) == affine_cell(
                    old(self).layer1.weights,
                    old(self).layer1.bias@,
                    *input,
                    o,
                    n,
                ));
                assert(self.relu.last_input->0.at(o, n) == h1.at(o, n));
            }
            // Stage two: layer2's cache is the rectified stage-one values.
            assert forall|k: int|
                0 <= k < self.layer2.last_input->0.data@.len()
                    implies #[trigger] self.layer2.last_input->0.data@[k] == rectified(
                self.relu.last_input->0.data@[k],
            ) by {
                assert(h2.data@[k] == rectified(h1.data@[k]));
            }
            // Stage three: the second rectifier's cache is layer2's affine
            // output of its own cached input.
            assert forall|o: int, n: int|
                0 <= o < old(self).layer2.out_features() && 0 <= n < input.cols
                    implies #[trigger] self.relu2.last_input->0.at(o, n) == affine_cell(
                old(self).layer2.weights,
                old(self).layer2.bias@,
                self.layer2.last_input->0,
                o,
                n,
            ) by {
                assert(h3.at(o, n) == affine_cell(
                    old(self).layer2.weights,
                    old(self).layer2.bias@,
                    h2,
                    o,
                    n,
                ));
                assert(self.relu2.last_input->0.at(o, n) == h3.at(o, n));
                lemma_dot_cell_depends_on_views(
                    old(self).layer2.weights,
                    old(self).layer2.weights,
                    h2,
                    self.layer2.last_input->0,
                    o,
                    n,
                    old(self).layer2.weights.cols as nat,
                );
            }
            // Stage four: layer3's cache is the rectified stage-three
            // values.
            assert forall|k: int|
                0 <= k < self.layer3.last_input->0.data@.len()
                    implies #[trigger] self.layer3.last_input->0.data@[k] == rectified(
                self.relu2.last_input->0.data@[k],
            ) by {
                assert(h4.data@[k] == rectified(h3.data@[k]));
            }
            // Stage five: the result is layer3's affine output of its own
            // cached input.
            assert forall|o: int, n: int|
                0 <= o < old(self).layer3.out_features() && 0 <= n < input.cols
                    implies #[trigger] h5.at(o, n) == affine_cell(
                old(self).layer3.weights,
                old(self).layer3.bias@,
                self.layer3.last_input->0,
                o,
                n,
            ) by {
                assert(h5.at(o, n) == affine_cell(
                    old(self).layer3.weights,
                    old(self).layer3.bias@,
                    h4,
                    o,
                    n,
                ));
                lemma_dot_cell_depends_on_views(
                    old(self).layer3.weights,
                    old(self).layer3.weights,
                    h4,
                    self.layer3.last_input->0,
                    o,
                    n,
                    old(self).layer3.weights.cols as nat,
                );
            }
        }
        Ok(h5)
    }

    fn backward(&mut self, grad_output: &Matrix<A>) -> (r: Result<Matrix<A>, NnError>)
        ensures
            final(self).layer1.weights == old(self).layer1.weights,
            final(self).layer1.bias == old(self).layer1.bias,
            final(self).layer2.weights == old(self).layer2.weights,
            final(self).layer2.bias == old(self).layer2.bias,
            final(self).layer3.weights == old(self).layer3.weights,
            final(self).layer3.bias == old(self).layer3.bias,
            final(self).layer1.last_input == old(self).layer1.last_input,
            final(self).relu.last_input == old(self).relu.last_input,
            final(self).layer2.last_input == old(self).layer2.last_input,
            final(self).relu2.last_input == old(self).relu2.last_input,
            final(self).layer3.last_input == old(self).layer3.last_input,
            r is Ok ==> forall|o: int, i: int|
                0 <= o < old(self).layer3.out_features() && 0 <= i < old(self).layer3.in_features()
                    ==> #[trigger] final(self).layer3.weight_grad.at(o, i) == old(
                    self,
                ).layer3.weight_grad.at(o, i).plus_spec(
                    dot_cell_rhs_t(*grad_output, old(self).layer3.last_input->0, o, i).div_by_spec(
                        A::of_usize_spec(old(self).layer3.last_input->0.cols),
                    ),
                ),
            r is Ok ==> forall|o: int|
                0 <= o < old(self).layer3.out_features()
                    ==> #[trigger] final(self).layer3.bias_grad@[o] == old(
                    self,
                ).layer3.bias_grad@[o].plus_spec(
                    row_total(*grad_output, o).div_by_spec(
                        A::of_usize_spec(old(self).layer3.last_input->0.cols),
                    ),
                ),
            r is Ok ==> exists|g3: Matrix<A>, g2: Matrix<A>, g1: Matrix<A>, g0: Matrix<A>|
                #[trigger] backward_chain(
                    *old(self),
                    *final(self),
                    *grad_output,
                    g3,
                    g2,
                    g1,
                    g0,
                    r->Ok_0,
                ),
    {
        if !self.cache_consistent() {
            return Err(NnError::PreconditionViolation);
        }
        let batch = match &self.layer1.last_input {
            Some(x) => x.cols,
            None => {
                return Err(NnError::PreconditionViolation);
            },
        };
        if grad_output.rows != self.layer3.weights.rows || grad_output.cols != batch {
            return Err(
                NnError::ShapeMismatch {
                    expected_rows: self.layer3.weights.rows,
                    expected_cols: batch,
                    actual_rows: grad_output.rows,
                    actual_cols: grad_output.cols,
                },
            );
        }
        let g3 = match self.layer3.backward(grad_output) {
            Ok(g) => g,
            Err(e) => {
                return Err(e);
            },
        };
        let g2 = match self.relu2.backward(&g3) {
            Ok(g) => g,
            Err(e) => {
                return Err(e);
            },
        };
        let g1 = match self.layer2.backward(&g2) {
            Ok(g) => g,
            Err(e) => {
                return Err(e);
            },
        };
        let g0 = match self.relu.backward(&g1) {
            Ok(g) => g,
            Err(e) => {
                return Err(e);
            },
        };
        let gr = match self.layer1.backward(&g0) {
            Ok(g) => g,
            Err(e) => {
                return Err(e);
            },
        };
        proof {
            assert(backward_chain(*old(self), *self, *grad_output, g3, g2, g1, g0, gr));
        }
        Ok(gr)
    }
}

impl<A: Scalar> Parameterized<A> for Network<A> {
    open spec fn params_wf(&self) -> bool {
        self.well_formed()
    }

    /// Delegates to the linear children in layer order, so every full walk
    /// visits the same parameter tensors in the same order: the weight and
    /// bias pairs of layer1, then of layer2, then of layer3 (the
    /// rectifiers own no parameters and contribute no visits).
    fn visit_params<V: ParamVisitor<A>>(&mut self, visitor: &mut V) -> (r: Result<(), NnError>)
        ensures
            r is Ok ==> exists|v1: V, v2: V|
                {
                    &&& linear_walked(*old(visitor), v1, old(self).layer1, final(self).layer1)
                    &&& #[trigger] linear_walked(v1, v2, old(self).layer2, final(self).layer2)
                    &&& linear_walked(v2, *final(visitor), old(self).layer3, final(self).layer3)
                },
            final(self).layer1.weight_grad == old(self).layer1.weight_grad,
            final(self).layer1.bias_grad == old(self).layer1.bias_grad,
            final(self).layer2.weight_grad == old(self).layer2.weight_grad,
            final(self).layer2.bias_grad == old(self).layer2.bias_grad,
            final(self).layer3.weight_grad == old(self).layer3.weight_grad,
            final(self).layer3.bias_grad == old(self).layer3.bias_grad,
            final(self).layer1.last_input == old(self).layer1.last_input,
            final(self).relu.last_input == old(self).relu.last_input,
            final(self).layer2.last_input == old(self).layer2.last_input,
            final(self).relu2.last_input == old(self).relu2.last_input,
            final(self).layer3.last_input == old(self).layer3.last_input,
    {
        match self.layer1.visit_params(visitor) {
            Err(e) => {
                return Err(e);
            },
            Ok(()) => {},
        }
        let ghost vis1 = *visitor;
        match self.layer2.visit_params(visitor) {
            Err(e) => {
                return Err(e);
            },
            Ok(()) => {},
        }
        let ghost vis2 = *visitor;
        let r3 = self.layer3.visit_params(visitor);
        proof {
            if r3 is Ok {
                assert(linear_walked(*old(visitor), vis1, old(self).layer1, self.layer1));
                assert(linear_walked(vis1, vis2, old(self).layer2, self.layer2));
                assert(linear_walked(vis2, *visitor, old(self).layer3, self.layer3));
            }
        }
        r3
    }

    fn zero_grad(&mut self)
        ensures
            all_grads_zero(*final(self)),
            final(self).layer1.weights == old(self).layer1.weights,
            final(self).layer1.bias == old(self).layer1.bias,
            final(self).layer2.weights == old(self).layer2.weights,
            final(self).layer2.bias == old(self).layer2.bias,
            final(self).layer3.weights == old(self).layer3.weights,
            final(self).layer3.bias == old(self).layer3.bias,
            final(self).layer1.last_input == old(self).layer1.last_input,
            final(self).relu.last_input == old(self).relu.last_input,
            final(self).layer2.last_input == old(self).layer2.last_input,
            final(self).relu2.last_input == old(self).relu2.last_input,
            final(self).layer3.last_input == old(self).layer3.last_input,
    {
        self.layer1.zero_grad();
        self.layer2.zero_grad();
        self.layer3.zero_grad();
    }
}

} // verus!
