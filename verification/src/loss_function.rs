use vstd::prelude::*;

use crate::error::NnError;
use crate::scalar::Scalar;
use crate::tensor::Matrix;
use crate::tensor::lemma_flat_index;

verus! {

/// A loss function: `forward` consumes a prediction batch and a target
/// batch of the same shape and yields the scalar loss, caching what
/// `backward` needs; `backward` yields the gradient of the loss with
/// respect to the prediction, with the prediction's shape.
///
/// `backward` before a matching `forward` is a reported precondition
/// violation, and a prediction/target shape disagreement is reported before
/// any arithmetic happens.
pub trait LossFunction<A: Scalar>: Sized {
    /// Structural well-formedness of the cached state.
    spec fn wf(&self) -> bool;

    /// Whether a forward pass has cached the state backward needs.
    spec fn cached(&self) -> bool;

    /// The row count of the cached prediction.
    spec fn cached_rows(&self) -> int;

    /// The column count of the cached prediction.
    spec fn cached_cols(&self) -> int;

    /// The scalar loss for one batch. Succeeds exactly when prediction and
    /// target agree in shape; then the loss cache holds this pair's state.
    /// On the mismatch the state is untouched and both shapes are reported.
    fn forward(&mut self, prediction: &Matrix<A>, target: &Matrix<A>) -> (r: Result<A, NnError>)
        requires
            old(self).wf(),
            prediction.wf(),
            target.wf(),
        ensures
            final(self).wf(),
            r is Ok <==> prediction.same_shape(*target),
            r is Ok ==> {
                &&& final(self).cached()
                &&& final(self).cached_rows() == prediction.rows as int
                &&& final(self).cached_cols() == prediction.cols as int
            },
            r is Err ==> *final(self) == *old(self) && r->Err_0 == (NnError::ShapeMismatch {
                expected_rows: prediction.rows,
                expected_cols: prediction.cols,
                actual_rows: target.rows,
                actual_cols: target.cols,
            }),
    ;

    /// The gradient of the most recent forward's loss with respect to the
    /// prediction. Succeeds exactly when a forward pass is cached, and then
    /// has the cached prediction's shape.
    fn backward(&self) -> (r: Result<Matrix<A>, NnError>)
        requires
            self.wf(),
        ensures
            r is Ok <==> self.cached(),
            !self.cached() ==> r == Result::<Matrix<A>, NnError>::Err(
                NnError::PreconditionViolation,
            ),
            r is Ok ==> {
                &&& r->Ok_0.wf()
                &&& r->Ok_0.rows as int == self.cached_rows()
                &&& r->Ok_0.cols as int == self.cached_cols()
            },
    ;
}

/// The sum of the first `n` squared differences `(p[k] - t[k])^2` of two
/// flat element sequences.
pub open spec fn squared_error_total<A: Scalar>(p: Seq<A>, t: Seq<A>, n: nat) -> A
    decreases n,
{
    if n == 0 {
        A::zero_spec()
    } else {
        squared_error_total(p, t, (n - 1) as nat).plus_spec(
            p[n - 1].minus_spec(t[n - 1]).times_spec(p[n - 1].minus_spec(t[n - 1])),
        )
    }
}

/// Mean squared error: the mean over all elements of
/// `(prediction - target)^2`, normalizing over both the feature and the
/// batch dimension. Its gradient is
/// `(2 / element_count) * (prediction - target)`.
pub struct MSE<A> {
    pub last_prediction: Option<Matrix<A>>,
    pub last_target: Option<Matrix<A>>,
}

impl<A> MSE<A> {
    /// Either nothing is cached, or one prediction/target pair of equal
    /// shape is.
    pub open spec fn well_formed(&self) -> bool {
        match (self.last_prediction, self.last_target) {
            (Some(p), Some(t)) => p.wf() && t.wf() && p.same_shape(t),
            (None, None) => true,
            _ => false,
        }
    }
}

impl<A: Scalar> MSE<A> {
    /// A fresh loss with no cached pair.
    pub fn new() -> (r: MSE<A>)
        ensures
            r.well_formed(),
            r.last_prediction is None,
            r.last_target is None,
    {
        MSE { last_prediction: None, last_target: None }
    }
}

/// The sum over all matching elements of `(p[k] - t[k])^2`.
fn squared_error_sum<A: Scalar>(p: &Matrix<A>, t: &Matrix<A>) -> (r: A)
    requires
        p.wf(),
        t.wf(),
        p.same_shape(*t),
    ensures
        r == squared_error_total(p.data@, t.data@, p.data@.len() as nat),
{
    let mut acc = A::zero();
    let mut k: usize = 0;
    while k < p.data.len()
        invariant
            p.wf(),
            t.wf(),
            p.same_shape(*t),
            k <= p.data.len(),
            acc == squared_error_total(p.data@, t.data@, k as nat),
        decreases p.data.len() - k,
    {
        let d = p.data[k].minus(t.data[k]);
        acc = acc.plus(d.times(d));
        k += 1;
    }
    acc
}

impl<A: Scalar> LossFunction<A> for MSE<A> {
    open spec fn wf(&self) -> bool {
        self.well_formed()
    }

    open spec fn cached(&self) -> bool {
        self.last_prediction is Some
    }

    open spec fn cached_rows(&self) -> int {
        self.last_prediction->0.rows as int
    }

    open spec fn cached_cols(&self) -> int {
        self.last_prediction->0.cols as int
    }

    fn forward(&mut self, prediction: &Matrix<A>, target: &Matrix<A>) -> (r: Result<A, NnError>)
        ensures
            r is Ok ==> final(self).last_prediction->0.data@ == prediction.data@
                && final(self).last_target->0.data@ == target.data@,
            r is Ok ==> r->Ok_0 == squared_error_total(
                prediction.data@,
                target.data@,
                prediction.data@.len() as nat,
            ).div_by_spec(A::of_usize_spec(prediction.data.len())),
    {
        if prediction.rows != target.rows || prediction.cols != target.cols {
            return Err(
                NnError::ShapeMismatch {
                    expected_rows: prediction.rows,
                    expected_cols: prediction.cols,
                    actual_rows: target.rows,
                    actual_cols: target.cols,
                },
            );
        }
        self.last_prediction = Some(prediction.duplicate());
        self.last_target = Some(target.duplicate());
        let element_count = prediction.data.len();
        Ok(squared_error_sum(prediction, target).div_by(A::of_usize(element_count)))
    }

    fn backward(&self) -> (r: Result<Matrix<A>, NnError>)
        ensures
            r is Ok ==> forall|k: int|
                0 <= k < r->Ok_0.data@.len() ==> #[trigger] r->Ok_0.data@[k]
                    == self.last_prediction->0.data@[k].minus_spec(
                    self.last_target->0.data@[k],
                ).times_spec(
                    A::of_usize_spec(2).div_by_spec(
                        A::of_usize_spec(self.last_prediction->0.data.len()),
                    ),
                ),
    {
        let (p, t) = match (&self.last_prediction, &self.last_target) {
            (Some(p), Some(t)) => (p, t),
            _ => {
                return Err(NnError::PreconditionViolation);
            },
        };
        let element_count = p.data.len();
        let two_over_n = A::of_usize(2).div_by(A::of_usize(element_count));
        Ok(p.elem_sub(t).scaled(two_over_n))
    }
}

/// The maximum of the first `n` elements of column `j` of `m` (meaningful
/// for `1 <= n`).
pub open spec fn column_max_partial<A: Scalar>(m: Matrix<A>, j: int, n: nat) -> A
    decreases n,
{
    if n <= 1 {
        m.at(0, j)
    } else {
        column_max_partial(m, j, (n - 1) as nat).max_with_spec(m.at(n - 1, j))
    }
}

/// The maximum of column `j` of `m`, used as the softmax shift; the zero
/// element for a matrix with no rows (which has nothing to exponentiate).
pub open spec fn column_max_of<A: Scalar>(m: Matrix<A>, j: int) -> A {
    if m.rows == 0 {
        A::zero_spec()
    } else {
        column_max_partial(m, j, m.rows as nat)
    }
}

/// The shifted exponential `exp(m[i, j] - column_max(j))` of the softmax.
pub open spec fn shifted_exp_cell<A: Scalar>(m: Matrix<A>, i: int, j: int) -> A {
    m.at(i, j).minus_spec(column_max_of(m, j)).exp_spec()
}

/// The sum of the first `n` shifted exponentials of column `j`.
pub open spec fn shifted_exp_column_partial<A: Scalar>(m: Matrix<A>, j: int, n: nat) -> A
    decreases n,
{
    if n == 0 {
        A::zero_spec()
    } else {
        shifted_exp_column_partial(m, j, (n - 1) as nat).plus_spec(
            shifted_exp_cell(m, (n - 1) as int, j),
        )
    }
}

/// The softmax normalizer of column `j`: the sum of the column's shifted
/// exponentials.
pub open spec fn shifted_exp_column_total<A: Scalar>(m: Matrix<A>, j: int) -> A {
    shifted_exp_column_partial(m, j, m.rows as nat)
}

/// The softmax probability of class `i` for sample `j` of the logits `m`.
pub open spec fn softmax_cell<A: Scalar>(m: Matrix<A>, i: int, j: int) -> A {
    shifted_exp_cell(m, i, j).div_by_spec(shifted_exp_column_total(m, j))
}

/// The guard added inside the logarithm: one quadrillionth.
pub open spec fn log_guard<A: Scalar>() -> A {
    A::of_usize_spec(1).div_by_spec(
        A::of_usize_spec(1000000).times_spec(A::of_usize_spec(1000000000)),
    )
}

/// The sum of the first `n` terms `t[k] * ln(q[k] + eps)` over two flat
/// element sequences.
pub open spec fn weighted_log_total<A: Scalar>(t: Seq<A>, q: Seq<A>, eps: A, n: nat) -> A
    decreases n,
{
    if n == 0 {
        A::zero_spec()
    } else {
        weighted_log_total(t, q, eps, (n - 1) as nat).plus_spec(
            t[n - 1].times_spec(q[n - 1].plus_spec(eps).ln_spec()),
        )
    }
}

/// The sum of the first `n` elements of column `j` of `m`.
pub open spec fn column_total_partial<A: Scalar>(m: Matrix<A>, j: int, n: nat) -> A
    decreases n,
{
    if n == 0 {
        A::zero_spec()
    } else {
        column_total_partial(m, j, (n - 1) as nat).plus_spec(m.at(n - 1, j))
    }
}

/// Fused softmax and cross-entropy loss over class-by-batch logit
/// matrices.
///
/// Forward first subtracts each column's maximum from that column (so the
/// exponentials cannot overflow), turns the shifted logits into per-column
/// probabilities, and takes the mean over the batch of
/// `-sum(target * log(probs + epsilon))`, with a tiny guard inside the
/// logarithm. Fusing the two steps lets backward use the simplified
/// gradient `(probs - target) / batch_size` directly.
pub struct CrossEntropy<A> {
    pub last_probs: Option<Matrix<A>>,
    pub last_target: Option<Matrix<A>>,
}

impl<A> CrossEntropy<A> {
    /// Either nothing is cached, or one probabilities/target pair of equal
    /// shape is.
    pub open spec fn well_formed(&self) -> bool {
        match (self.last_probs, self.last_target) {
            (Some(p), Some(t)) => p.wf() && t.wf() && p.same_shape(t),
            (None, None) => true,
            _ => false,
        }
    }
}

impl<A: Scalar> CrossEntropy<A> {
    /// A fresh loss with no cached pair.
    pub fn new() -> (r: CrossEntropy<A>)
        ensures
            r.well_formed(),
            r.last_probs is None,
            r.last_target is None,
    {
        CrossEntropy { last_probs: None, last_target: None }
    }
}

/// The maximum of each column (zero for a matrix with no rows, in which
/// case there are no elements to exponentiate anyway).
fn col_max<A: Scalar>(m: &Matrix<A>) -> (r: Vec<A>)
    requires
        m.wf(),
    ensures
        r.len() == m.cols,
        forall|j: int| 0 <= j < r.len() ==> r@[j] == column_max_of(*m, j),
{
    let mut out: Vec<A> = Vec::new();
    let mut j: usize = 0;
    while j < m.cols
        invariant
            m.wf(),
            j <= m.cols,
            out@.len() == j,
            forall|j2: int| 0 <= j2 < j ==> out@[j2] == column_max_of(*m, j2),
        decreases m.cols - j,
    {
        let mut acc = if m.rows > 0 {
            m.get(0, j)
        } else {
            A::zero()
        };
        let mut i: usize = 1;
        while i < m.rows
            invariant
                m.wf(),
                j < m.cols,
                1 <= i,
                m.rows > 0 ==> i <= m.rows,
                m.rows > 0 ==> acc == column_max_partial(*m, j as int, i as nat),
                m.rows == 0 ==> acc == A::zero_spec(),
            decreases m.rows - i,
        {
            acc = acc.max_with(m.get(i, j));
            i += 1;
        }
        out.push(acc);
        j += 1;
    }
    out
}

/// Subtracts `v[j]` from every element of column `j`.
fn sub_row_broadcast<A: Scalar>(m: &Matrix<A>, v: &Vec<A>) -> (r: Matrix<A>)
    requires
        m.wf(),
        v.len() == m.cols,
    ensures
        r.wf(),
        r.rows == m.rows,
        r.cols == m.cols,
        forall|i: int, j: int|
            0 <= i < r.rows && 0 <= j < r.cols ==> #[trigger] r.at(i, j) == m.at(i, j).minus_spec(
                v@[j],
            ),
{
    let mut data: Vec<A> = Vec::new();
    let mut i: usize = 0;
    while i < m.rows
        invariant
            m.wf(),
            v.len() == m.cols,
            i <= m.rows,
            data@.len() == i * m.cols,
            forall|p: int|
                0 <= p < data@.len() ==> #[trigger] data@[p] == m.data@[p].minus_spec(
                    v@[p % m.cols as int],
                ),
        decreases m.rows - i,
    {
        let mut j: usize = 0;
        while j < m.cols
            invariant
                m.wf(),
                v.len() == m.cols,
                i < m.rows,
                j <= m.cols,
                data@.len() == i * m.cols + j,
                forall|p: int|
                    0 <= p < data@.len() ==> #[trigger] data@[p] == m.data@[p].minus_spec(
                        v@[p % m.cols as int],
                    ),
            decreases m.cols - j,
        {
            proof {
                crate::tensor::lemma_flat_index_decomposes(i as int, j as int, m.cols as int);
                lemma_flat_index(i as int, j as int, m.rows as int, m.cols as int);
            }
            data.push(m.get(i, j).minus(v[j]));
            j += 1;
        }
        assert((i + 1) * m.cols == i * m.cols + m.cols) by (nonlinear_arith);
        i += 1;
    }
    let r = Matrix { rows: m.rows, cols: m.cols, data };
    proof {
        assert forall|i2: int, j2: int|
            0 <= i2 < r.rows && 0 <= j2 < r.cols implies #[trigger] r.at(i2, j2) == m.at(
            i2,
            j2,
        ).minus_spec(v@[j2]) by {
            lemma_flat_index(i2, j2, r.rows as int, r.cols as int);
            crate::tensor::lemma_flat_index_decomposes(i2, j2, r.cols as int);
        }
    }
    r
}

/// Divides every element of column `j` by `v[j]`.
fn div_row_broadcast<A: Scalar>(m: &Matrix<A>, v: &Vec<A>) -> (r: Matrix<A>)
    requires
        m.wf(),
        v.len() == m.cols,
    ensures
        r.wf(),
        r.rows == m.rows,
        r.cols == m.cols,
        forall|i: int, j: int|
            0 <= i < r.rows && 0 <= j < r.cols ==> #[trigger] r.at(i, j) == m.at(i, j).div_by_spec(
                v@[j],
            ),
{
    let mut data: Vec<A> = Vec::new();
    let mut i: usize = 0;
    while i < m.rows
        invariant
            m.wf(),
            v.len() == m.cols,
            i <= m.rows,
            data@.len() == i * m.cols,
            forall|p: int|
                0 <= p < data@.len() ==> #[trigger] data@[p] == m.data@[p].div_by_spec(
                    v@[p % m.cols as int],
                ),
        decreases m.rows - i,
    {
        let mut j: usize = 0;
        while j < m.cols
            invariant
                m.wf(),
                v.len() == m.cols,
                i < m.rows,
                j <= m.cols,
                data@.len() == i * m.cols + j,
                forall|p: int|
                    0 <= p < data@.len() ==> #[trigger] data@[p] == m.data@[p].div_by_spec(
                        v@[p % m.cols as int],
                    ),
            decreases m.cols - j,
        {
            proof {
                crate::tensor::lemma_flat_index_decomposes(i as int, j as int, m.cols as int);
                lemma_flat_index(i as int, j as int, m.rows as int, m.cols as int);
            }
            data.push(m.get(i, j).div_by(v[j]));
            j += 1;
        }
        assert((i + 1) * m.cols == i * m.cols + m.cols) by (nonlinear_arith);
        i += 1;
    }
    let r = Matrix { rows: m.rows, cols: m.cols, data };
    proof {
        assert forall|i2: int, j2: int|
            0 <= i2 < r.rows && 0 <= j2 < r.cols implies #[trigger] r.at(i2, j2) == m.at(
            i2,
            j2,
        ).div_by_spec(v@[j2]) by {
            lemma_flat_index(i2, j2, r.rows as int, r.cols as int);
            crate::tensor::lemma_flat_index_decomposes(i2, j2, r.cols as int);
        }
    }
    r
}

/// The exponential of every element.
fn exp_map<A: Scalar>(m: &Matrix<A>) -> (r: Matrix<A>)
    requires
        m.wf(),
    ensures
        r.wf(),
        r.rows == m.rows,
        r.cols == m.cols,
        forall|k: int| 0 <= k < r.data@.len() ==> #[trigger] r.data@[k] == m.data@[k].exp_spec(),
{
    let mut data: Vec<A> = Vec::new();
    let mut k: usize = 0;
    while k < m.data.len()
        invariant
            m.wf(),
            k <= m.data.len(),
            data@.len() == k,
            forall|p: int| 0 <= p < k ==> #[trigger] data@[p] == m.data@[p].exp_spec(),
        decreases m.data.len() - k,
    {
        data.push(m.data[k].exp());
        k += 1;
    }
    Matrix { rows: m.rows, cols: m.cols, data }
}

/// The sum of each column.
fn col_sum<A: Scalar>(m: &Matrix<A>) -> (r: Vec<A>)
    requires
        m.wf(),
    ensures
        r.len() == m.cols,
        forall|j: int| 0 <= j < r.len() ==> r@[j] == column_total_partial(*m, j, m.rows as nat),
{
    let mut out: Vec<A> = Vec::new();
    let mut j: usize = 0;
    while j < m.cols
        invariant
            m.wf(),
            j <= m.cols,
            out@.len() == j,
            forall|j2: int| 0 <= j2 < j ==> out@[j2] == column_total_partial(*m, j2, m.rows as nat),
        decreases m.cols - j,
    {
        let mut acc = A::zero();
        let mut i: usize = 0;
        while i < m.rows
            invariant
                m.wf(),
                j < m.cols,
                i <= m.rows,
                acc == column_total_partial(*m, j as int, i as nat),
            decreases m.rows - i,
        {
            acc = acc.plus(m.get(i, j));
            i += 1;
        }
        out.push(acc);
        j += 1;
    }
    out
}

/// `sum(target * log(probs + epsilon))` over all elements.
fn weighted_log_sum<A: Scalar>(target: &Matrix<A>, probs: &Matrix<A>, epsilon: A) -> (r: A)
    requires
        target.wf(),
        probs.wf(),
        target.same_shape(*probs),
    ensures
        r == weighted_log_total(target.data@, probs.data@, epsilon, target.data@.len() as nat),
{
    let mut acc = A::zero();
    let mut k: usize = 0;
    while k < target.data.len()
        invariant
            target.wf(),
            probs.wf(),
            target.same_shape(*probs),
            k <= target.data.len(),
            acc == weighted_log_total(target.data@, probs.data@, epsilon, k as nat),
        decreases target.data.len() - k,
    {
        acc = acc.plus(target.data[k].times(probs.data[k].plus(epsilon).ln()));
        k += 1;
    }
    acc
}

/// A matrix whose column-`j` elements are the shifted exponentials of the
/// logits has `shifted_exp_column_partial` as its partial column sums.
proof fn lemma_column_total_of_shifted_exp<A: Scalar>(e: Matrix<A>, m: Matrix<A>, j: int, n: nat)
    requires
        e.rows == m.rows,
        0 <= j,
        n <= e.rows,
        forall|i: int| 0 <= i < e.rows ==> #[trigger] e.at(i, j) == shifted_exp_cell(m, i, j),
    ensures
        column_total_partial(e, j, n) == shifted_exp_column_partial(m, j, n),
    decreases n,
{
    if n > 0 {
        lemma_column_total_of_shifted_exp(e, m, j, (n - 1) as nat);
    }
}

impl<A: Scalar> LossFunction<A> for CrossEntropy<A> {
    open spec fn wf(&self) -> bool {
        self.well_formed()
    }

    open spec fn cached(&self) -> bool {
        self.last_probs is Some
    }

    open spec fn cached_rows(&self) -> int {
        self.last_probs->0.rows as int
    }

    open spec fn cached_cols(&self) -> int {
        self.last_probs->0.cols as int
    }

    fn forward(&mut self, prediction: &Matrix<A>, target: &Matrix<A>) -> (r: Result<A, NnError>)
        ensures
            r is Ok ==> final(self).last_target->0.data@ == target.data@,
            r is Ok ==> forall|i: int, j: int|
                0 <= i < prediction.rows && 0 <= j < prediction.cols
                    ==> #[trigger] final(self).last_probs->0.at(i, j) == softmax_cell(
                    *prediction,
                    i,
                    j,
                ),
            r is Ok ==> r->Ok_0 == weighted_log_total(
                target.data@,
                final(self).last_probs->0.data@,
                log_guard::<A>(),
                target.data@.len() as nat,
            ).neg_spec().div_by_spec(A::of_usize_spec(prediction.cols)),
    {
        if prediction.rows != target.rows || prediction.cols != target.cols {
            return Err(
                NnError::ShapeMismatch {
                    expected_rows: prediction.rows,
                    expected_cols: prediction.cols,
                    actual_rows: target.rows,
                    actual_cols: target.cols,
                },
            );
        }
        let batch_size = prediction.cols;

        // Keep every shifted logit at or below zero so `exp` cannot
        // overflow.
        let per_column_max = col_max(prediction);
        let logits = sub_row_broadcast(prediction, &per_column_max);

        let exp_logits = exp_map(&logits);
        proof {
            assert forall|i: int, j: int|
                0 <= i < exp_logits.rows && 0 <= j < exp_logits.cols
                    implies #[trigger] exp_logits.at(i, j) == shifted_exp_cell(
                *prediction,
                i,
                j,
            ) by {
                lemma_flat_index(i, j, exp_logits.rows as int, exp_logits.cols as int);
                assert(per_column_max@[j] == column_max_of(*prediction, j));
                assert(logits.at(i, j) == prediction.at(i, j).minus_spec(per_column_max@[j]));
                assert(exp_logits.data@[i * exp_logits.cols + j] == logits.data@[i
                    * exp_logits.cols + j].exp_spec());
            }
        }
        let sum_exp = col_sum(&exp_logits);
        proof {
            assert forall|j: int| 0 <= j < sum_exp.len() implies sum_exp@[j]
                == shifted_exp_column_total(*prediction, j) by {
                assert forall|i: int| 0 <= i < exp_logits.rows implies #[trigger] exp_logits.at(
                    i,
                    j,
                ) == shifted_exp_cell(*prediction, i, j) by {}
                lemma_column_total_of_shifted_exp(
                    exp_logits,
                    *prediction,
                    j,
                    exp_logits.rows as nat,
                );
            }
        }
        let probs = div_row_broadcast(&exp_logits, &sum_exp);

        self.last_probs = Some(probs.duplicate());
        self.last_target = Some(target.duplicate());
        proof {
            assert forall|i: int, j: int|
                0 <= i < prediction.rows && 0 <= j < prediction.cols
                    implies #[trigger] self.last_probs->0.at(i, j) == softmax_cell(
                *prediction,
                i,
                j,
            ) by {
                lemma_flat_index(i, j, probs.rows as int, probs.cols as int);
                assert(probs.at(i, j) == softmax_cell(*prediction, i, j));
            }
        }

        // log(0) is undefined, so guard the argument with a tiny epsilon of
        // one quadrillionth (the divisor is built from two factors so that
        // each literal stays within the small machine-word range).
        let epsilon = A::of_usize(1).div_by(A::of_usize(1_000_000).times(A::of_usize(1_000_000_000)));
        let total = weighted_log_sum(target, &probs, epsilon);
        Ok(total.neg().div_by(A::of_usize(batch_size)))
    }

    fn backward(&self) -> (r: Result<Matrix<A>, NnError>)
        ensures
            r is Ok ==> forall|k: int|
                0 <= k < r->Ok_0.data@.len() ==> #[trigger] r->Ok_0.data@[k]
                    == self.last_probs->0.data@[k].minus_spec(
                    self.last_target->0.data@[k],
                ).div_by_spec(A::of_usize_spec(self.last_probs->0.cols)),
    {
        let (p, t) = match (&self.last_probs, &self.last_target) {
            (Some(p), Some(t)) => (p, t),
            _ => {
                return Err(NnError::PreconditionViolation);
            },
        };
        let batch_size = p.cols;
        Ok(p.elem_sub(t).div_by_count(batch_size))
    }
}

} // verus!
