use vstd::prelude::*;

use crate::error::NnError;
use crate::layer::Layer;
use crate::scalar::Scalar;
use crate::tensor::Matrix;

verus! {

/// The rectified-linear activation layer: elementwise `max(x, 0)`.
///
/// It owns no trainable parameters; the only state is the cached input of
/// the most recent forward, which backward needs to gate the upstream
/// gradient. The subgradient at exactly zero is taken as zero.
pub struct ReLU<A> {
    pub last_input: Option<Matrix<A>>,
}

impl<A> ReLU<A> {
    pub open spec fn well_formed(&self) -> bool {
        match self.last_input {
            Some(x) => x.wf(),
            None => true,
        }
    }
}

impl<A: Scalar> ReLU<A> {
    /// A fresh activation layer with no cache.
    pub fn new() -> (r: ReLU<A>)
        ensures
            r.well_formed(),
            r.last_input is None,
    {
        ReLU { last_input: None }
    }
}

/// The rectified value of `x`: `x` itself where it is positive, else the
/// zero element.
pub open spec fn rectified<A: Scalar>(x: A) -> A {
    if x.is_positive_spec() {
        x
    } else {
        A::zero_spec()
    }
}

/// The upstream gradient `g` gated by the sign of the forward input `x`:
/// passed through where `x` is positive, else zero.
pub open spec fn gated<A: Scalar>(g: A, x: A) -> A {
    if x.is_positive_spec() {
        g
    } else {
        A::zero_spec()
    }
}

/// The positive part of every element: `x` where `x > 0`, else zero.
fn pos_part<A: Scalar>(m: &Matrix<A>) -> (r: Matrix<A>)
    requires
        m.wf(),
    ensures
        r.wf(),
        r.rows == m.rows,
        r.cols == m.cols,
        forall|k: int| 0 <= k < r.data@.len() ==> #[trigger] r.data@[k] == rectified(m.data@[k]),
{
    let mut data: Vec<A> = Vec::new();
    let mut k: usize = 0;
    while k < m.data.len()
        invariant
            m.wf(),
            k <= m.data.len(),
            data@.len() == k,
            forall|p: int| 0 <= p < k ==> #[trigger] data@[p] == rectified(m.data@[p]),
        decreases m.data.len() - k,
    {
        let x = m.data[k];
        if x.is_positive() {
            data.push(x);
        } else {
            data.push(A::zero());
        }
        k += 1;
    }
    Matrix { rows: m.rows, cols: m.cols, data }
}

/// Passes `g` through where the matching element of `x` is positive, else
/// zero: the rectifier's gradient gate.
fn gate_by_sign<A: Scalar>(g: &Matrix<A>, x: &Matrix<A>) -> (r: Matrix<A>)
    requires
        g.wf(),
        x.wf(),
        g.same_shape(*x),
    ensures
        r.wf(),
        r.rows == g.rows,
        r.cols == g.cols,
        forall|k: int|
            0 <= k < r.data@.len() ==> #[trigger] r.data@[k] == gated(g.data@[k], x.data@[k]),
{
    let mut data: Vec<A> = Vec::new();
    let mut k: usize = 0;
    while k < g.data.len()
        invariant
            g.wf(),
            x.wf(),
            g.same_shape(*x),
            k <= g.data.len(),
            data@.len() == k,
            forall|p: int| 0 <= p < k ==> #[trigger] data@[p] == gated(g.data@[p], x.data@[p]),
        decreases g.data.len() - k,
    {
        if x.data[k].is_positive() {
            data.push(g.data[k]);
        } else {
            data.push(A::zero());
        }
        k += 1;
    }
    Matrix { rows: g.rows, cols: g.cols, data }
}

impl<A: Scalar> Layer<A> for ReLU<A> {
    open spec fn wf(&self) -> bool {
        self.well_formed()
    }

    /// Accepts any feature count.
    open spec fn accepts(&self, rows: int) -> bool {
        true
    }

    /// Preserves the shape of its input.
    open spec fn out_rows(&self, rows: int) -> int {
        rows
    }

    open spec fn cached(&self) -> bool {
        self.last_input is Some
    }

    open spec fn cached_rows(&self) -> int {
        self.last_input->0.rows as int
    }

    open spec fn cached_cols(&self) -> int {
        self.last_input->0.cols as int
    }

    fn forward(&mut self, input: &Matrix<A>) -> (r: Result<Matrix<A>, NnError>)
        ensures
            r is Ok,
            final(self).last_input->0.data@ == input.data@,
            forall|k: int|
                0 <= k < r->Ok_0.data@.len() ==> #[trigger] r->Ok_0.data@[k] == rectified(
                    input.data@[k],
                ),
    {
        self.last_input = Some(input.duplicate());
        Ok(pos_part(input))
    }

    fn backward(&mut self, grad_output: &Matrix<A>) -> (r: Result<Matrix<A>, NnError>)
        ensures
            *final(self) == *old(self),
            r is Ok ==> forall|k: int|
                0 <= k < r->Ok_0.data@.len() ==> #[trigger] r->Ok_0.data@[k] == gated(
                    grad_output.data@[k],
                    old(self).last_input->0.data@[k],
                ),
    {
        let x = match &self.last_input {
            None => {
                return Err(NnError::PreconditionViolation);
            },
            Some(cache) => cache.duplicate(),
        };
        if grad_output.rows != x.rows || grad_output.cols != x.cols {
            return Err(
                NnError::ShapeMismatch {
                    expected_rows: x.rows,
                    expected_cols: x.cols,
                    actual_rows: grad_output.rows,
                    actual_cols: grad_output.cols,
                },
            );
        }
        Ok(gate_by_sign(grad_output, &x))
    }
}

} // verus!
