use vstd::prelude::*;

use crate::error::NnError;
use crate::scalar::Scalar;
use crate::tensor::Matrix;
use crate::tensor::{add_vecs, filled_vec, scaled_vec, sub_vecs};
use crate::visitor::ParamVisitor;

verus! {

/// Plain stochastic gradient descent: on every visit the parameter moves
/// one step against its gradient, `param <- param - learning_rate * grad`.
/// Stateless across visits, so the visit order does not matter.
pub struct SGD<A> {
    pub learning_rate: A,
}

impl<A: Scalar> SGD<A> {
    pub fn new(learning_rate: A) -> (r: SGD<A>)
        ensures
            r.learning_rate == learning_rate,
    {
        SGD { learning_rate }
    }
}

impl<A: Scalar> ParamVisitor<A> for SGD<A> {
    /// One SGD rank-2 visit: the optimizer itself is untouched and every
    /// parameter element steps against its gradient.
    open spec fn visit2_post(
        pre: Self,
        post: Self,
        param_pre: Matrix<A>,
        param_post: Matrix<A>,
        grad: Matrix<A>,
    ) -> bool {
        &&& post == pre
        &&& param_post.rows == param_pre.rows
        &&& param_post.cols == param_pre.cols
        &&& param_post.data@.len() == param_pre.data@.len()
        &&& forall|k: int|
            0 <= k < param_post.data@.len() ==> #[trigger] param_post.data@[k]
                == param_pre.data@[k].minus_spec(grad.data@[k].times_spec(pre.learning_rate))
    }

    /// The rank-1 counterpart: the same stateless elementwise step.
    open spec fn visit1_post(
        pre: Self,
        post: Self,
        param_pre: Vec<A>,
        param_post: Vec<A>,
        grad: Vec<A>,
    ) -> bool {
        &&& post == pre
        &&& param_post@.len() == param_pre@.len()
        &&& forall|k: int|
            0 <= k < param_post@.len() ==> #[trigger] param_post@[k]
                == param_pre@[k].minus_spec(grad@[k].times_spec(pre.learning_rate))
    }

    fn visit_array2_with_grad(&mut self, param: &mut Matrix<A>, grad: &Matrix<A>) -> (r: Result<
        (),
        NnError,
    >)
        ensures
            r is Ok,
    {
        let step = grad.scaled(self.learning_rate);
        let updated = param.elem_sub(&step);
        *param = updated;
        Ok(())
    }

    fn visit_array1_with_grad(&mut self, param: &mut Vec<A>, grad: &Vec<A>) -> (r: Result<
        (),
        NnError,
    >)
        ensures
            r is Ok,
    {
        let step = scaled_vec(grad, self.learning_rate);
        let updated = sub_vecs(param, &step);
        *param = updated;
        Ok(())
    }
}

/// Gradient descent with momentum: each visited parameter owns a velocity
/// buffer that decays geometrically and absorbs every new gradient,
/// `v <- momentum * v + grad`, and the parameter then moves against the
/// velocity, `param <- param - learning_rate * v`.
///
/// Velocity buffers persist across passes (unlike gradients) and are keyed
/// positionally: the buffers live in one list per tensor rank, a cursor per
/// list picks the buffer for the next visit, and `start_pass` rewinds both
/// cursors to the front without touching the buffers. The order and count
/// of visits must therefore be identical in every pass; a visit whose
/// positional buffer no longer matches the parameter's shape is rejected
/// rather than applied to the wrong parameter.
pub struct SGDMomentum<A> {
    learning_rate: A,
    momentum: A,
    velocities_2d: Vec<Matrix<A>>,
    velocities_1d: Vec<Vec<A>>,
    idx_2d: usize,
    idx_1d: usize,
}

impl<A> SGDMomentum<A> {
    /// The cursors never run past their buffer lists, and every rank-2
    /// buffer is a well-formed matrix.
    #[verifier::type_invariant]
    spec fn inv(self) -> bool {
        &&& self.idx_2d <= self.velocities_2d.len()
        &&& self.idx_1d <= self.velocities_1d.len()
        &&& forall|i: int|
            0 <= i < self.velocities_2d.len() ==> (#[trigger] self.velocities_2d[i]).wf()
    }

    pub closed spec fn rate(&self) -> A {
        self.learning_rate
    }

    pub closed spec fn momentum_coeff(&self) -> A {
        self.momentum
    }

    /// The position of the rank-2 buffer the next rank-2 visit will use.
    pub closed spec fn rank2_cursor(&self) -> int {
        self.idx_2d as int
    }

    /// The position of the rank-1 buffer the next rank-1 visit will use.
    pub closed spec fn rank1_cursor(&self) -> int {
        self.idx_1d as int
    }

    /// The rank-2 velocity buffers, in visit order.
    pub closed spec fn rank2_velocities(&self) -> Seq<Matrix<A>> {
        self.velocities_2d@
    }

    /// The rank-1 velocity buffers, in visit order.
    pub closed spec fn rank1_velocities(&self) -> Seq<Vec<A>> {
        self.velocities_1d@
    }
}

/// How one successful rank-2 momentum visit changes the optimizer state,
/// for a parameter of shape `rows`-by-`cols`: the cursor advances by one;
/// the buffer at the old cursor position is the only one written (appended
/// fresh if the cursor sat one past the end) and has the parameter's shape;
/// everything else, the rank-1 state included, is untouched.
pub open spec fn momentum_visit2_ok<A>(
    pre: SGDMomentum<A>,
    post: SGDMomentum<A>,
    rows: int,
    cols: int,
) -> bool {
    &&& post.rank2_cursor() == pre.rank2_cursor() + 1
    &&& pre.rank2_cursor() < pre.rank2_velocities().len() ==> post.rank2_velocities().len()
        == pre.rank2_velocities().len()
    &&& pre.rank2_cursor() >= pre.rank2_velocities().len() ==> post.rank2_velocities().len()
        == pre.rank2_velocities().len() + 1
    &&& forall|j: int|
        0 <= j < pre.rank2_velocities().len() && j != pre.rank2_cursor()
            ==> post.rank2_velocities()[j] == pre.rank2_velocities()[j]
    &&& post.rank2_velocities()[pre.rank2_cursor()].rows as int == rows
    &&& post.rank2_velocities()[pre.rank2_cursor()].cols as int == cols
    &&& post.rank1_velocities() == pre.rank1_velocities()
    &&& post.rank1_cursor() == pre.rank1_cursor()
    &&& post.rate() == pre.rate()
    &&& post.momentum_coeff() == pre.momentum_coeff()
}

/// The rank-1 counterpart of `momentum_visit2_ok`, for a parameter vector
/// of length `len`.
pub open spec fn momentum_visit1_ok<A>(pre: SGDMomentum<A>, post: SGDMomentum<A>, len: int) -> bool {
    &&& post.rank1_cursor() == pre.rank1_cursor() + 1
    &&& pre.rank1_cursor() < pre.rank1_velocities().len() ==> post.rank1_velocities().len()
        == pre.rank1_velocities().len()
    &&& pre.rank1_cursor() >= pre.rank1_velocities().len() ==> post.rank1_velocities().len()
        == pre.rank1_velocities().len() + 1
    &&& forall|j: int|
        0 <= j < pre.rank1_velocities().len() && j != pre.rank1_cursor()
            ==> post.rank1_velocities()[j] == pre.rank1_velocities()[j]
    &&& post.rank1_velocities()[pre.rank1_cursor()].len() as int == len
    &&& post.rank2_velocities() == pre.rank2_velocities()
    &&& post.rank2_cursor() == pre.rank2_cursor()
    &&& post.rate() == pre.rate()
    &&& post.momentum_coeff() == pre.momentum_coeff()
}

impl<A: Scalar> SGDMomentum<A> {
    /// A fresh momentum optimizer with no velocity buffers yet; they are
    /// created lazily, one per visited parameter, on the first pass.
    pub fn new(learning_rate: A, momentum: A) -> (r: SGDMomentum<A>)
        ensures
            r.rate() == learning_rate,
            r.momentum_coeff() == momentum,
            r.rank2_velocities().len() == 0,
            r.rank1_velocities().len() == 0,
            r.rank2_cursor() == 0,
            r.rank1_cursor() == 0,
    {
        SGDMomentum {
            learning_rate,
            momentum,
            velocities_2d: Vec::new(),
            velocities_1d: Vec::new(),
            idx_2d: 0,
            idx_1d: 0,
        }
    }

    /// Rewinds both cursors to the first buffer without touching any
    /// velocity state. Must be called before each full pass over a
    /// network's parameters, so that the Nth visit of every pass lands on
    /// the Nth buffer.
    pub fn start_pass(&mut self)
        ensures
            final(self).rank2_cursor() == 0,
            final(self).rank1_cursor() == 0,
            final(self).rank2_velocities() == old(self).rank2_velocities(),
            final(self).rank1_velocities() == old(self).rank1_velocities(),
            final(self).rate() == old(self).rate(),
            final(self).momentum_coeff() == old(self).momentum_coeff(),
    {
        proof {
            use_type_invariant(&*self);
        }
        self.idx_2d = 0;
        self.idx_1d = 0;
    }

    /// The number of rank-2 velocity buffers created so far.
    pub fn rank2_velocity_count(&self) -> (n: usize)
        ensures
            n == self.rank2_velocities().len(),
    {
        self.velocities_2d.len()
    }

    /// The rank-2 velocity buffer at position `i` in visit order.
    pub fn rank2_velocity(&self, i: usize) -> (r: &Matrix<A>)
        requires
            i < self.rank2_velocities().len(),
        ensures
            *r == self.rank2_velocities()[i as int],
    {
        &self.velocities_2d[i]
    }

    /// The number of rank-1 velocity buffers created so far.
    pub fn rank1_velocity_count(&self) -> (n: usize)
        ensures
            n == self.rank1_velocities().len(),
    {
        self.velocities_1d.len()
    }

    /// The rank-1 velocity buffer at position `i` in visit order.
    pub fn rank1_velocity(&self, i: usize) -> (r: &Vec<A>)
        requires
            i < self.rank1_velocities().len(),
        ensures
            *r == self.rank1_velocities()[i as int],
    {
        &self.velocities_1d[i]
    }
}

impl<A: Scalar> ParamVisitor<A> for SGDMomentum<A> {
    /// One successful rank-2 momentum visit: the structural step relation
    /// `momentum_visit2_ok` holds, the buffer at the old cursor absorbs
    /// the gradient into its decayed velocity (a fresh buffer starts from
    /// zero), and the parameter steps against that updated velocity.
    open spec fn visit2_post(
        pre: Self,
        post: Self,
        param_pre: Matrix<A>,
        param_post: Matrix<A>,
        grad: Matrix<A>,
    ) -> bool {
        &&& momentum_visit2_ok(pre, post, param_pre.rows as int, param_pre.cols as int)
        &&& param_post.rows == param_pre.rows
        &&& param_post.cols == param_pre.cols
        &&& param_post.data@.len() == param_pre.data@.len()
        &&& forall|p: int|
            0 <= p < post.rank2_velocities()[pre.rank2_cursor()].data@.len()
                ==> #[trigger] post.rank2_velocities()[pre.rank2_cursor()].data@[p] == (if pre.rank2_cursor() < pre.rank2_velocities().len() {
                pre.rank2_velocities()[pre.rank2_cursor()].data@[p]
            } else {
                A::zero_spec()
            }).times_spec(pre.momentum_coeff()).plus_spec(grad.data@[p])
        &&& forall|p: int|
            0 <= p < param_post.data@.len() ==> #[trigger] param_post.data@[p]
                == param_pre.data@[p].minus_spec(
                post.rank2_velocities()[pre.rank2_cursor()].data@[p].times_spec(pre.rate()),
            )
    }

    /// The rank-1 counterpart, over the rank-1 buffer list and cursor.
    open spec fn visit1_post(
        pre: Self,
        post: Self,
        param_pre: Vec<A>,
        param_post: Vec<A>,
        grad: Vec<A>,
    ) -> bool {
        &&& momentum_visit1_ok(pre, post, param_pre.len() as int)
        &&& param_post@.len() == param_pre@.len()
        &&& forall|p: int|
            0 <= p < post.rank1_velocities()[pre.rank1_cursor()]@.len()
                ==> #[trigger] post.rank1_velocities()[pre.rank1_cursor()]@[p] == (if pre.rank1_cursor() < pre.rank1_velocities().len() {
                pre.rank1_velocities()[pre.rank1_cursor()]@[p]
            } else {
                A::zero_spec()
            }).times_spec(pre.momentum_coeff()).plus_spec(grad@[p])
        &&& forall|p: int|
            0 <= p < param_post@.len() ==> #[trigger] param_post@[p] == param_pre@[p].minus_spec(
                post.rank1_velocities()[pre.rank1_cursor()]@[p].times_spec(pre.rate()),
            )
    }

    fn visit_array2_with_grad(&mut self, param: &mut Matrix<A>, grad: &Matrix<A>) -> (r: Result<
        (),
        NnError,
    >)
        ensures
            r is Ok <==> (old(self).rank2_cursor() >= old(self).rank2_velocities().len() || (
            old(self).rank2_velocities()[old(self).rank2_cursor()].rows == old(param).rows
                && old(self).rank2_velocities()[old(self).rank2_cursor()].cols == old(
                param,
            ).cols)),
            r is Err ==> *final(self) == *old(self),
    {
        proof {
            use_type_invariant(&*self);
        }
        // The velocity list is swapped into a local while it is reworked, so
        // that the cursor/list pairing the type invariant demands holds at
        // every intermediate point.
        let saved_cursor = self.idx_2d;
        self.idx_2d = 0;
        let mut buffers: Vec<Matrix<A>> = Vec::new();
        core::mem::swap(&mut self.velocities_2d, &mut buffers);
        if saved_cursor >= buffers.len() {
            buffers.push(Matrix::filled(param.rows, param.cols, A::zero()));
        }
        let slot_rows = buffers[saved_cursor].rows;
        let slot_cols = buffers[saved_cursor].cols;
        if slot_rows != param.rows || slot_cols != param.cols {
            core::mem::swap(&mut self.velocities_2d, &mut buffers);
            self.idx_2d = saved_cursor;
            return Err(
                NnError::ShapeMismatch {
                    expected_rows: slot_rows,
                    expected_cols: slot_cols,
                    actual_rows: param.rows,
                    actual_cols: param.cols,
                },
            );
        }
        let updated_velocity = buffers[saved_cursor].scaled(self.momentum).elem_add(grad);
        let updated_param = param.elem_sub(&updated_velocity.scaled(self.learning_rate));
        buffers[saved_cursor] = updated_velocity;
        *param = updated_param;
        core::mem::swap(&mut self.velocities_2d, &mut buffers);
        self.idx_2d = saved_cursor + 1;
        Ok(())
    }

    fn visit_array1_with_grad(&mut self, param: &mut Vec<A>, grad: &Vec<A>) -> (r: Result<
        (),
        NnError,
    >)
        ensures
            r is Ok <==> (old(self).rank1_cursor() >= old(self).rank1_velocities().len() || old(
                self,
            ).rank1_velocities()[old(self).rank1_cursor()].len() == old(param).len()),
            r is Err ==> *final(self) == *old(self),
    {
        proof {
            use_type_invariant(&*self);
        }
        let saved_cursor = self.idx_1d;
        self.idx_1d = 0;
        let mut buffers: Vec<Vec<A>> = Vec::new();
        core::mem::swap(&mut self.velocities_1d, &mut buffers);
        if saved_cursor >= buffers.len() {
            buffers.push(filled_vec(param.len(), A::zero()));
        }
        let slot_len = buffers[saved_cursor].len();
        if slot_len != param.len() {
            core::mem::swap(&mut self.velocities_1d, &mut buffers);
            self.idx_1d = saved_cursor;
            return Err(
                NnError::ShapeMismatch {
                    expected_rows: slot_len,
                    expected_cols: 1,
                    actual_rows: param.len(),
                    actual_cols: 1,
                },
            );
        }
        let updated_velocity = add_vecs(&scaled_vec(&buffers[saved_cursor], self.momentum), grad);
        let updated_param = sub_vecs(param, &scaled_vec(&updated_velocity, self.learning_rate));
        buffers[saved_cursor] = updated_velocity;
        *param = updated_param;
        core::mem::swap(&mut self.velocities_1d, &mut buffers);
        self.idx_1d = saved_cursor + 1;
        Ok(())
    }
}

/// Positional indexing of the momentum buffers, stated once and for all:
/// in any run of successful rank-2 visits that starts with the cursor at
/// the front (as `start_pass` leaves it), the cursor before the `n+1`-th
/// visit is exactly `n`, so that visit writes the buffer at position `n`
/// and creates it only if the list still ends there. Two consecutive
/// passes with the same visit order therefore pair every parameter with
/// the same velocity buffer, pass after pass.
pub proof fn lemma_rank2_visits_target_buffers_in_order<A>(
    states: Seq<SGDMomentum<A>>,
    shapes: Seq<(int, int)>,
    n: int,
)
    requires
        states.len() >= 1,
        shapes.len() == states.len() - 1,
        states[0].rank2_cursor() == 0,
        forall|i: int|
            0 <= i < states.len() - 1 ==> #[trigger] momentum_visit2_ok(
                states[i],
                states[i + 1],
                shapes[i].0,
                shapes[i].1,
            ),
        0 <= n < states.len() - 1,
    ensures
        states[n].rank2_cursor() == n,
        states[n].rank2_velocities().len() >= n,
        states[n + 1].rank2_velocities()[n].rows as int == shapes[n].0,
        states[n + 1].rank2_velocities()[n].cols as int == shapes[n].1,
    decreases n,
{
    if n > 0 {
        lemma_rank2_visits_target_buffers_in_order(states, shapes, n - 1);
        assert(momentum_visit2_ok(states[n - 1], states[n], shapes[n - 1].0, shapes[n - 1].1));
    }
    assert(momentum_visit2_ok(states[n], states[n + 1], shapes[n].0, shapes[n].1));
}

/// Two passes that each start with the cursor rewound (as `start_pass`
/// leaves it) and then run successful rank-2 visits pair their visits with
/// buffers identically: in both passes the `n+1`-th visit reads and writes
/// the buffer at position `n`, whatever happened between the passes.
pub proof fn lemma_consecutive_passes_use_the_same_buffer<A>(
    first_pass: Seq<SGDMomentum<A>>,
    first_shapes: Seq<(int, int)>,
    second_pass: Seq<SGDMomentum<A>>,
    second_shapes: Seq<(int, int)>,
    n: int,
)
    requires
        first_pass.len() >= 1,
        first_shapes.len() == first_pass.len() - 1,
        first_pass[0].rank2_cursor() == 0,
        forall|i: int|
            0 <= i < first_pass.len() - 1 ==> #[trigger] momentum_visit2_ok(
                first_pass[i],
                first_pass[i + 1],
                first_shapes[i].0,
                first_shapes[i].1,
            ),
        second_pass.len() >= 1,
        second_shapes.len() == second_pass.len() - 1,
        second_pass[0].rank2_cursor() == 0,
        forall|i: int|
            0 <= i < second_pass.len() - 1 ==> #[trigger] momentum_visit2_ok(
                second_pass[i],
                second_pass[i + 1],
                second_shapes[i].0,
                second_shapes[i].1,
            ),
        0 <= n < first_pass.len() - 1,
        n < second_pass.len() - 1,
    ensures
        first_pass[n].rank2_cursor() == n,
        second_pass[n].rank2_cursor() == n,
        first_pass[n + 1].rank2_velocities()[n].rows as int == first_shapes[n].0,
        second_pass[n + 1].rank2_velocities()[n].rows as int == second_shapes[n].0,
{
    lemma_rank2_visits_target_buffers_in_order(first_pass, first_shapes, n);
    lemma_rank2_visits_target_buffers_in_order(second_pass, second_shapes, n);
}

} // verus!
