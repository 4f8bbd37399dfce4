use vstd::prelude::*;

use crate::error::NnError;
use crate::scalar::Scalar;
use crate::tensor::Matrix;

verus! {

/// A computation unit of the network.
///
/// `forward` maps an input batch to an output batch and caches whatever the
/// paired `backward` will need; `backward` consumes that cache, accumulates
/// the layer's parameter gradients as a side effect, and returns the
/// gradient with respect to the layer's input.
///
/// Batches are matrices with one sample per column, so a layer transforms
/// the row count (features) and preserves the column count (batch size).
/// `backward` before a matching `forward` is a precondition violation that
/// is reported, never silently computed from stale state.
pub trait Layer<A: Scalar>: Sized {
    /// Structural well-formedness of the layer's state.
    spec fn wf(&self) -> bool;

    /// Whether the layer accepts an input batch with this many rows.
    spec fn accepts(&self, rows: int) -> bool;

    /// The row count of the output for an accepted input with `rows` rows.
    spec fn out_rows(&self, rows: int) -> int;

    /// Whether a forward pass has cached the state backward needs.
    spec fn cached(&self) -> bool;

    /// The row count of the cached forward input.
    spec fn cached_rows(&self) -> int;

    /// The column count (batch size) of the cached forward input.
    spec fn cached_cols(&self) -> int;

    /// Forward evaluation of one batch. On success the output has
    /// `out_rows` rows and the input's column count, and the layer holds a
    /// fresh cache of this input; a rejected input leaves the layer
    /// untouched and reports the shape disagreement.
    fn forward(&mut self, input: &Matrix<A>) -> (r: Result<Matrix<A>, NnError>)
        requires
            old(self).wf(),
            input.wf(),
        ensures
            final(self).wf(),
            r is Ok <==> old(self).accepts(input.rows as int),
            r is Ok ==> {
                &&& r->Ok_0.wf()
                &&& r->Ok_0.rows as int == old(self).out_rows(input.rows as int)
                &&& r->Ok_0.cols == input.cols
                &&& final(self).cached()
                &&& final(self).cached_rows() == input.rows as int
                &&& final(self).cached_cols() == input.cols as int
                &&& final(self).accepts(input.rows as int)
            },
            r is Err ==> *final(self) == *old(self) && r->Err_0 is ShapeMismatch,
    ;

    /// Reverse-mode step for the most recent forward. Succeeds exactly when
    /// a cache is present and the output gradient has the shape the cached
    /// forward produced; then the result is the input gradient, with the
    /// cached input's shape. On failure the layer (gradients included) is
    /// untouched.
    fn backward(&mut self, grad_output: &Matrix<A>) -> (r: Result<Matrix<A>, NnError>)
        requires
            old(self).wf(),
            grad_output.wf(),
        ensures
            final(self).wf(),
            r is Ok <==> {
                &&& old(self).cached()
                &&& grad_output.rows as int == old(self).out_rows(old(self).cached_rows())
                &&& grad_output.cols as int == old(self).cached_cols()
            },
            r is Ok ==> {
                &&& r->Ok_0.wf()
                &&& r->Ok_0.rows as int == old(self).cached_rows()
                &&& r->Ok_0.cols as int == old(self).cached_cols()
            },
            !old(self).cached() ==> r == Result::<Matrix<A>, NnError>::Err(
                NnError::PreconditionViolation,
            ),
            r is Err && old(self).cached() ==> r->Err_0 == (NnError::ShapeMismatch {
                expected_rows: old(self).out_rows(old(self).cached_rows()) as usize,
                expected_cols: old(self).cached_cols() as usize,
                actual_rows: grad_output.rows,
                actual_cols: grad_output.cols,
            }),
            r is Err ==> *final(self) == *old(self),
    ;
}

} // verus!
