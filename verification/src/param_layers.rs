use vstd::prelude::*;

use crate::error::NnError;
use crate::layer::Layer;
use crate::scalar::Scalar;
use crate::tensor::Matrix;
use crate::tensor::{add_vecs, div_vec_by_count, filled_vec};
use crate::tensor::{dot_cell, dot_cell_lhs_t, dot_cell_rhs_t, lemma_flat_index, row_total};
use crate::visitor::{ParamVisitor, Parameterized};

verus! {

/// A dense affine layer, `y = W * x + b`, batched over the columns of `x`.
///
/// `weights` is `output_features`-by-`input_features`, `bias` has one entry
/// per output feature, and each parameter tensor is shadowed by a gradient
/// tensor of the same shape that backward passes accumulate into.
///
/// Gradient accumulation convention: each backward call adds the
/// mean-over-batch contribution, `(G * transpose(x)) / batch_size` for the
/// weights and `row_sum(G) / batch_size` for the bias. The input gradient
/// `transpose(W) * G` is never batch-scaled, since it must match the
/// upstream layer's output-gradient convention.
pub struct LinearLayer<A> {
    pub weights: Matrix<A>,
    pub bias: Vec<A>,
    pub weight_grad: Matrix<A>,
    pub bias_grad: Vec<A>,
    pub last_input: Option<Matrix<A>>,
}

impl<A> LinearLayer<A> {
    /// The number of input features the layer expects per sample.
    pub open spec fn in_features(&self) -> int {
        self.weights.cols as int
    }

    /// The number of output features the layer produces per sample.
    pub open spec fn out_features(&self) -> int {
        self.weights.rows as int
    }

    /// Parameters and gradients are paired in shape, and any cached input
    /// has the layer's input feature count.
    pub open spec fn well_formed(&self) -> bool {
        &&& self.weights.wf()
        &&& self.weight_grad.wf()
        &&& self.weight_grad.same_shape(self.weights)
        &&& self.bias.len() as int == self.out_features()
        &&& self.bias_grad.len() == self.bias.len()
        &&& match self.last_input {
            Some(x) => x.wf() && x.rows as int == self.in_features(),
            None => true,
        }
    }
}

/// The affine map's element at `(o, n)`: row `o` of the weights dotted
/// with column `n` of the input, shifted by the bias entry `o`.
pub open spec fn affine_cell<A: Scalar>(
    weights: Matrix<A>,
    bias: Seq<A>,
    input: Matrix<A>,
    o: int,
    n: int,
) -> A {
    dot_cell(weights, input, o, n).plus_spec(bias[o])
}

/// The visitor walked one linear layer: one rank-2 visit on the weight
/// pair, then one rank-1 visit on the bias pair, in that order, with the
/// gradients passed along read-only.
pub open spec fn linear_walked<A: Scalar, V: ParamVisitor<A>>(
    vis_pre: V,
    vis_post: V,
    layer_pre: LinearLayer<A>,
    layer_post: LinearLayer<A>,
) -> bool {
    exists|mid: V|
        {
            &&& #[trigger] V::visit2_post(
                vis_pre,
                mid,
                layer_pre.weights,
                layer_post.weights,
                layer_pre.weight_grad,
            )
            &&& V::visit1_post(mid, vis_post, layer_pre.bias, layer_post.bias, layer_pre.bias_grad)
        }
}

impl<A: Scalar> LinearLayer<A> {
    /// A fresh layer with all parameters and gradients zero and no cache.
    pub fn new(output_features: usize, input_features: usize) -> (r: LinearLayer<A>)
        ensures
            r.well_formed(),
            r.out_features() == output_features,
            r.in_features() == input_features,
            r.last_input is None,
            forall|k: int|
                0 <= k < r.weights.data@.len() ==> #[trigger] r.weights.data@[k]
                    == A::zero_spec(),
            forall|k: int| 0 <= k < r.bias@.len() ==> #[trigger] r.bias@[k] == A::zero_spec(),
            forall|k: int|
                0 <= k < r.weight_grad.data@.len() ==> #[trigger] r.weight_grad.data@[k]
                    == A::zero_spec(),
            forall|k: int|
                0 <= k < r.bias_grad@.len() ==> #[trigger] r.bias_grad@[k] == A::zero_spec(),
    {
        LinearLayer {
            weights: Matrix::filled(output_features, input_features, A::zero()),
            bias: filled_vec(output_features, A::zero()),
            weight_grad: Matrix::filled(output_features, input_features, A::zero()),
            bias_grad: filled_vec(output_features, A::zero()),
            last_input: None,
        }
    }
}

impl<A: Scalar> Layer<A> for LinearLayer<A> {
    open spec fn wf(&self) -> bool {
        self.well_formed()
    }

    open spec fn accepts(&self, rows: int) -> bool {
        rows == self.in_features()
    }

    open spec fn out_rows(&self, rows: int) -> int {
        self.out_features()
    }

    open spec fn cached(&self) -> bool {
        self.last_input is Some
    }

    open spec fn cached_rows(&self) -> int {
        self.last_input->0.rows as int
    }

    open spec fn cached_cols(&self) -> int {
        self.last_input->0.cols as int
    }

    fn forward(&mut self, input: &Matrix<A>) -> (r: Result<Matrix<A>, NnError>)
        ensures
            final(self).weights == old(self).weights,
            final(self).bias == old(self).bias,
            final(self).weight_grad == old(self).weight_grad,
            final(self).bias_grad == old(self).bias_grad,
            r is Ok ==> final(self).last_input->0.data@ == input.data@,
            r is Ok ==> forall|o: int, n: int|
                0 <= o < old(self).out_features() && 0 <= n < input.cols
                    ==> #[trigger] r->Ok_0.at(o, n) == affine_cell(
                    old(self).weights,
                    old(self).bias@,
                    *input,
                    o,
                    n,
                ),
            r is Err ==> r->Err_0 == (NnError::ShapeMismatch {
                expected_rows: old(self).weights.cols,
                expected_cols: input.cols,
                actual_rows: input.rows,
                actual_cols: input.cols,
            }),
    {
        if input.rows != self.weights.cols {
            return Err(
                NnError::ShapeMismatch {
                    expected_rows: self.weights.cols,
                    expected_cols: input.cols,
                    actual_rows: input.rows,
                    actual_cols: input.cols,
                },
            );
        }
        self.last_input = Some(input.duplicate());
        let product = self.weights.matmul(input);
        Ok(product.add_col_broadcast(&self.bias))
    }

    fn backward(&mut self, grad_output: &Matrix<A>) -> (r: Result<Matrix<A>, NnError>)
        ensures
            final(self).weights == old(self).weights,
            final(self).bias == old(self).bias,
            final(self).last_input == old(self).last_input,
            final(self).weight_grad.same_shape(old(self).weight_grad),
            final(self).bias_grad.len() == old(self).bias_grad.len(),
            r is Err ==> final(self).weight_grad == old(self).weight_grad && final(self).bias_grad
                == old(self).bias_grad,
            r is Ok ==> forall|o: int, i: int|
                0 <= o < old(self).out_features() && 0 <= i < old(self).in_features()
                    ==> #[trigger] final(self).weight_grad.at(o, i) == old(self).weight_grad.at(
                    o,
                    i,
                ).plus_spec(
                    dot_cell_rhs_t(*grad_output, old(self).last_input->0, o, i).div_by_spec(
                        A::of_usize_spec(old(self).last_input->0.cols),
                    ),
                ),
            r is Ok ==> forall|o: int|
                0 <= o < old(self).out_features() ==> #[trigger] final(self).bias_grad@[o] == old(
                    self,
                ).bias_grad@[o].plus_spec(
                    row_total(*grad_output, o).div_by_spec(
                        A::of_usize_spec(old(self).last_input->0.cols),
                    ),
                ),
            r is Ok ==> forall|i: int, n: int|
                0 <= i < old(self).in_features() && 0 <= n < old(self).last_input->0.cols
                    ==> #[trigger] r->Ok_0.at(i, n) == dot_cell_lhs_t(
                    old(self).weights,
                    *grad_output,
                    i,
                    n,
                ),
    {
        // The cache is moved out while the gradients are updated and put
        // back unchanged before returning, so the contract can speak of it
        // as one value.
        let x = match self.last_input.take() {
            None => {
                return Err(NnError::PreconditionViolation);
            },
            Some(cache) => cache,
        };
        if grad_output.rows != self.weights.rows || grad_output.cols != x.cols {
            let expected_cols = x.cols;
            self.last_input = Some(x);
            return Err(
                NnError::ShapeMismatch {
                    expected_rows: self.weights.rows,
                    expected_cols,
                    actual_rows: grad_output.rows,
                    actual_cols: grad_output.cols,
                },
            );
        }
        let batch_size = x.cols;
        let raw_contribution = grad_output.matmul_transpose_rhs(&x);
        let weight_contribution = raw_contribution.div_by_count(batch_size);
        self.weight_grad = self.weight_grad.elem_add(&weight_contribution);
        let bias_contribution = div_vec_by_count(&grad_output.row_sum(), batch_size);
        self.bias_grad = add_vecs(&self.bias_grad, &bias_contribution);
        let result = self.weights.matmul_transpose_lhs(grad_output);
        self.last_input = Some(x);
        proof {
            assert forall|o: int, i: int|
                0 <= o < old(self).out_features() && 0 <= i < old(self).in_features()
                    implies #[trigger] self.weight_grad.at(o, i) == old(self).weight_grad.at(
                o,
                i,
            ).plus_spec(
                dot_cell_rhs_t(*grad_output, old(self).last_input->0, o, i).div_by_spec(
                    A::of_usize_spec(old(self).last_input->0.cols),
                ),
            ) by {
                lemma_flat_index(o, i, old(self).out_features(), old(self).in_features());
                let p = o * old(self).in_features() + i;
                assert(raw_contribution.at(o, i) == dot_cell_rhs_t(*grad_output, x, o, i));
                assert(weight_contribution.data@[p] == raw_contribution.data@[p].div_by_spec(
                    A::of_usize_spec(batch_size),
                ));
                assert(self.weight_grad.data@[p] == old(self).weight_grad.data@[p].plus_spec(
                    weight_contribution.data@[p],
                ));
            }
        }
        Ok(result)
    }
}

/// The base value with the first `n` contributions folded on, in order.
pub open spec fn accumulated<A: Scalar>(base: A, contributions: Seq<A>, n: nat) -> A
    decreases n,
{
    if n == 0 {
        base
    } else {
        accumulated(base, contributions, (n - 1) as nat).plus_spec(contributions[n - 1])
    }
}

/// Gradient accumulation, stated once for any number of backward calls:
/// when every step adds its own contribution to a gradient entry — as each
/// successful `backward` ensures for every weight and bias gradient entry,
/// with the contribution `(G * transpose(x)) / batch` or
/// `row_sum(G) / batch` — the entry after `n` steps is the initial entry
/// with all `n` contributions folded on. Gradients are accumulated, never
/// overwritten; only `zero_grad` resets the base to zero.
pub proof fn lemma_gradients_accumulate<A: Scalar>(entries: Seq<A>, contributions: Seq<A>, n: int)
    requires
        entries.len() == contributions.len() + 1,
        forall|j: int|
            0 <= j < contributions.len() ==> entries[j + 1] == entries[j].plus_spec(
                #[trigger] contributions[j],
            ),
        0 <= n <= contributions.len(),
    ensures
        entries[n] == accumulated(entries[0], contributions, n as nat),
    decreases n,
{
    if n > 0 {
        lemma_gradients_accumulate(entries, contributions, n - 1);
    }
}

impl<A: Scalar> Parameterized<A> for LinearLayer<A> {
    open spec fn params_wf(&self) -> bool {
        self.well_formed()
    }

    /// Visits the weight pair first, then the bias pair: the fixed order
    /// every walk over this layer's parameters uses.
    fn visit_params<V: ParamVisitor<A>>(&mut self, visitor: &mut V) -> (r: Result<(), NnError>)
        ensures
            final(self).weight_grad == old(self).weight_grad,
            final(self).bias_grad == old(self).bias_grad,
            final(self).last_input == old(self).last_input,
            final(self).weights.same_shape(old(self).weights),
            final(self).bias.len() == old(self).bias.len(),
            r is Ok ==> linear_walked(*old(visitor), *final(visitor), *old(self), *final(self)),
            r is Err ==> final(self).bias == old(self).bias,
    {
        match visitor.visit_array2_with_grad(&mut self.weights, &self.weight_grad) {
            Err(e) => {
                return Err(e);
            },
            Ok(()) => {},
        }
        let ghost mid = *visitor;
        let r1 = visitor.visit_array1_with_grad(&mut self.bias, &self.bias_grad);
        proof {
            if r1 is Ok {
                assert(V::visit2_post(
                    *old(visitor),
                    mid,
                    old(self).weights,
                    self.weights,
                    old(self).weight_grad,
                ));
                assert(V::visit1_post(mid, *visitor, old(self).bias, self.bias, old(self).bias_grad));
            }
        }
        r1
    }

    fn zero_grad(&mut self)
        ensures
            final(self).weights == old(self).weights,
            final(self).bias == old(self).bias,
            final(self).last_input == old(self).last_input,
            final(self).weight_grad.same_shape(old(self).weight_grad),
            final(self).bias_grad.len() == old(self).bias_grad.len(),
            forall|k: int|
                0 <= k < final(self).weight_grad.data@.len()
                    ==> #[trigger] final(self).weight_grad.data@[k] == A::zero_spec(),
            forall|k: int|
                0 <= k < final(self).bias_grad@.len() ==> #[trigger] final(self).bias_grad@[k]
                    == A::zero_spec(),
    {
        self.weight_grad = Matrix::filled(self.weight_grad.rows, self.weight_grad.cols, A::zero());
        self.bias_grad = filled_vec(self.bias_grad.len(), A::zero());
    }
}

} // verus!
