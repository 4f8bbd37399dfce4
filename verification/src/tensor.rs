use vstd::prelude::*;

use vstd::arithmetic::div_mod::lemma_fundamental_div_mod_converse;

use crate::scalar::Scalar;

verus! {

/// A dense rank-2 tensor: `rows * cols` elements stored row-major, so the
/// element at row `i` and column `j` sits at flat position `i * cols + j`.
///
/// Throughout the crate a matrix stores one feature vector per column:
/// a batch of `n` samples with `f` features each is an `f`-by-`n` matrix.
#[derive(Clone, Debug, PartialEq)]
pub struct Matrix<A> {
    pub rows: usize,
    pub cols: usize,
    pub data: Vec<A>,
}

impl<A> Matrix<A> {
    /// Well-formed: the flat storage holds exactly `rows * cols` elements.
    pub open spec fn wf(self) -> bool {
        self.data.len() == self.rows * self.cols
    }

    /// The element at row `i`, column `j`.
    pub open spec fn at(self, i: int, j: int) -> A {
        self.data@[i * self.cols + j]
    }

    pub open spec fn same_shape(self, other: Matrix<A>) -> bool {
        self.rows == other.rows && self.cols == other.cols
    }
}

/// A flat position `i * cols + j` with `i < rows` and `j < cols` lies inside
/// the `rows * cols` elements of a well-formed matrix.
pub proof fn lemma_flat_index(i: int, j: int, rows: int, cols: int)
    requires
        0 <= i < rows,
        0 <= j < cols,
    ensures
        0 <= i * cols + j < rows * cols,
{
    assert(0 <= i * cols + j < rows * cols) by (nonlinear_arith)
        requires
            0 <= i < rows,
            0 <= j < cols,
    ;
}

/// A flat position `i * cols + j` with `0 <= j < cols` decomposes back into
/// row `i` and column `j`.
pub proof fn lemma_flat_index_decomposes(i: int, j: int, cols: int)
    requires
        0 <= i,
        0 <= j < cols,
    ensures
        (i * cols + j) / cols == i,
        (i * cols + j) % cols == j,
{
    lemma_fundamental_div_mod_converse(i * cols + j, cols, i, j);
}

/// The sum of the first `n` terms of row `i` of `a` times column `j` of
/// `b`: after all `a.cols` terms, the matrix-product element at `(i, j)`.
pub open spec fn dot_cell_partial<A: Scalar>(a: Matrix<A>, b: Matrix<A>, i: int, j: int, n: nat) -> A
    decreases n,
{
    if n == 0 {
        A::zero_spec()
    } else {
        dot_cell_partial(a, b, i, j, (n - 1) as nat).plus_spec(
            a.at(i, n - 1).times_spec(b.at(n - 1, j)),
        )
    }
}

/// The element at `(i, j)` of the matrix product `a * b`.
pub open spec fn dot_cell<A: Scalar>(a: Matrix<A>, b: Matrix<A>, i: int, j: int) -> A {
    dot_cell_partial(a, b, i, j, a.cols as nat)
}

/// As `dot_cell_partial`, but with the left operand read transposed.
pub open spec fn dot_cell_lhs_t_partial<A: Scalar>(
    a: Matrix<A>,
    b: Matrix<A>,
    i: int,
    j: int,
    n: nat,
) -> A
    decreases n,
{
    if n == 0 {
        A::zero_spec()
    } else {
        dot_cell_lhs_t_partial(a, b, i, j, (n - 1) as nat).plus_spec(
            a.at(n - 1, i).times_spec(b.at(n - 1, j)),
        )
    }
}

/// The element at `(i, j)` of `transpose(a) * b`.
pub open spec fn dot_cell_lhs_t<A: Scalar>(a: Matrix<A>, b: Matrix<A>, i: int, j: int) -> A {
    dot_cell_lhs_t_partial(a, b, i, j, a.rows as nat)
}

/// As `dot_cell_partial`, but with the right operand read transposed.
pub open spec fn dot_cell_rhs_t_partial<A: Scalar>(
    a: Matrix<A>,
    b: Matrix<A>,
    i: int,
    j: int,
    n: nat,
) -> A
    decreases n,
{
    if n == 0 {
        A::zero_spec()
    } else {
        dot_cell_rhs_t_partial(a, b, i, j, (n - 1) as nat).plus_spec(
            a.at(i, n - 1).times_spec(b.at(j, n - 1)),
        )
    }
}

/// The element at `(i, j)` of `a * transpose(b)`.
pub open spec fn dot_cell_rhs_t<A: Scalar>(a: Matrix<A>, b: Matrix<A>, i: int, j: int) -> A {
    dot_cell_rhs_t_partial(a, b, i, j, a.cols as nat)
}

/// A matrix-product cell depends only on the operands' column counts and
/// flat contents, never on the rest of the structs that carry them.
pub proof fn lemma_dot_cell_depends_on_views<A: Scalar>(
    a1: Matrix<A>,
    a2: Matrix<A>,
    b1: Matrix<A>,
    b2: Matrix<A>,
    i: int,
    j: int,
    n: nat,
)
    requires
        a1.cols == a2.cols,
        a1.data@ == a2.data@,
        b1.cols == b2.cols,
        b1.data@ == b2.data@,
    ensures
        dot_cell_partial(a1, b1, i, j, n) == dot_cell_partial(a2, b2, i, j, n),
    decreases n,
{
    if n > 0 {
        lemma_dot_cell_depends_on_views(a1, a2, b1, b2, i, j, (n - 1) as nat);
    }
}

/// The sum of the first `n` elements of row `i` of `m`.
pub open spec fn row_total_partial<A: Scalar>(m: Matrix<A>, i: int, n: nat) -> A
    decreases n,
{
    if n == 0 {
        A::zero_spec()
    } else {
        row_total_partial(m, i, (n - 1) as nat).plus_spec(m.at(i, n - 1))
    }
}

/// The sum of row `i` of `m`.
pub open spec fn row_total<A: Scalar>(m: Matrix<A>, i: int) -> A {
    row_total_partial(m, i, m.cols as nat)
}

impl<A: Scalar> Matrix<A> {
    /// Wraps a flat row-major element vector as a matrix, if the element
    /// count matches the requested shape.
    pub fn from_vec(rows: usize, cols: usize, data: Vec<A>) -> (r: Option<Matrix<A>>)
        ensures
            r is Some <==> data.len() == rows * cols,
            r is Some ==> {
                &&& r->0.wf()
                &&& r->0.rows == rows
                &&& r->0.cols == cols
                &&& r->0.data@ == data@
            },
    {
        match rows.checked_mul(cols) {
            Some(n) if n == data.len() => Some(Matrix { rows, cols, data }),
            _ => None,
        }
    }

    /// A `rows`-by-`cols` matrix with every element equal to `x`.
    pub fn filled(rows: usize, cols: usize, x: A) -> (r: Matrix<A>)
        ensures
            r.wf(),
            r.rows == rows,
            r.cols == cols,
            forall|k: int| 0 <= k < r.data@.len() ==> r.data@[k] == x,
    {
        let mut data: Vec<A> = Vec::new();
        let mut i: usize = 0;
        while i < rows
            invariant
                i <= rows,
                data@.len() == i * cols,
                forall|k: int| 0 <= k < data@.len() ==> data@[k] == x,
            decreases rows - i,
        {
            let mut j: usize = 0;
            while j < cols
                invariant
                    j <= cols,
                    data@.len() == i * cols + j,
                    forall|k: int| 0 <= k < data@.len() ==> data@[k] == x,
                decreases cols - j,
            {
                data.push(x);
                j += 1;
            }
            assert((i + 1) * cols == i * cols + cols) by (nonlinear_arith);
            i += 1;
        }
        Matrix { rows, cols, data }
    }

    /// An element-for-element copy of the matrix.
    pub fn duplicate(&self) -> (r: Matrix<A>)
        requires
            self.wf(),
        ensures
            r.wf(),
            r.rows == self.rows,
            r.cols == self.cols,
            r.data@ == self.data@,
    {
        let mut data: Vec<A> = Vec::new();
        let mut k: usize = 0;
        while k < self.data.len()
            invariant
                k <= self.data.len(),
                data@ == self.data@.take(k as int),
            decreases self.data.len() - k,
        {
            data.push(self.data[k]);
            assert(data@ == self.data@.take(k + 1 as int));
            k += 1;
        }
        assert(data@ == self.data@);
        Matrix { rows: self.rows, cols: self.cols, data }
    }

    /// The element at row `i`, column `j`.
    pub fn get(&self, i: usize, j: usize) -> (r: A)
        requires
            self.wf(),
            i < self.rows,
            j < self.cols,
        ensures
            r == self.at(i as int, j as int),
    {
        proof {
            lemma_flat_index(i as int, j as int, self.rows as int, self.cols as int);
        }
        self.data[i * self.cols + j]
    }

    /// The matrix product `self * other`, with `self` of shape m-by-k and
    /// `other` of shape k-by-n giving an m-by-n result.
    pub fn matmul(&self, other: &Matrix<A>) -> (r: Matrix<A>)
        requires
            self.wf(),
            other.wf(),
            self.cols == other.rows,
        ensures
            r.wf(),
            r.rows == self.rows,
            r.cols == other.cols,
            forall|i: int, j: int|
                0 <= i < r.rows && 0 <= j < r.cols ==> r.at(i, j) == dot_cell(
                    *self,
                    *other,
                    i,
                    j,
                ),
    {
        let mut data: Vec<A> = Vec::new();
        let mut i: usize = 0;
        while i < self.rows
            invariant
                self.wf(),
                other.wf(),
                self.cols == other.rows,
                i <= self.rows,
                data@.len() == i * other.cols,
                forall|p: int|
                    0 <= p < data@.len() ==> #[trigger] data@[p] == dot_cell(
                        *self,
                        *other,
                        p / other.cols as int,
                        p % other.cols as int,
                    ),
            decreases self.rows - i,
        {
            let mut j: usize = 0;
            while j < other.cols
                invariant
                    self.wf(),
                    other.wf(),
                    self.cols == other.rows,
                    i < self.rows,
                    j <= other.cols,
                    data@.len() == i * other.cols + j,
                    forall|p: int|
                        0 <= p < data@.len() ==> #[trigger] data@[p] == dot_cell(
                            *self,
                            *other,
                            p / other.cols as int,
                            p % other.cols as int,
                        ),
                decreases other.cols - j,
            {
                let mut acc = A::zero();
                let mut k: usize = 0;
                while k < self.cols
                    invariant
                        self.wf(),
                        other.wf(),
                        self.cols == other.rows,
                        i < self.rows,
                        j < other.cols,
                        k <= self.cols,
                        acc == dot_cell_partial(*self, *other, i as int, j as int, k as nat),
                    decreases self.cols - k,
                {
                    acc = acc.plus(self.get(i, k).times(other.get(k, j)));
                    k += 1;
                }
                proof {
                    lemma_flat_index_decomposes(i as int, j as int, other.cols as int);
                }
                data.push(acc);
                j += 1;
            }
            assert((i + 1) * other.cols == i * other.cols + other.cols) by (nonlinear_arith);
            i += 1;
        }
        let r = Matrix { rows: self.rows, cols: other.cols, data };
        proof {
            assert forall|i2: int, j2: int|
                0 <= i2 < r.rows && 0 <= j2 < r.cols implies r.at(i2, j2) == dot_cell(
                *self,
                *other,
                i2,
                j2,
            ) by {
                lemma_flat_index(i2, j2, r.rows as int, r.cols as int);
                lemma_flat_index_decomposes(i2, j2, r.cols as int);
            }
        }
        r
    }

    /// The product `transpose(self) * other`, with `self` of shape k-by-m
    /// and `other` of shape k-by-n giving an m-by-n result.
    pub fn matmul_transpose_lhs(&self, other: &Matrix<A>) -> (r: Matrix<A>)
        requires
            self.wf(),
            other.wf(),
            self.rows == other.rows,
        ensures
            r.wf(),
            r.rows == self.cols,
            r.cols == other.cols,
            forall|i: int, j: int|
                0 <= i < r.rows && 0 <= j < r.cols ==> r.at(i, j) == dot_cell_lhs_t(
                    *self,
                    *other,
                    i,
                    j,
                ),
    {
        let mut data: Vec<A> = Vec::new();
        let mut i: usize = 0;
        while i < self.cols
            invariant
                self.wf(),
                other.wf(),
                self.rows == other.rows,
                i <= self.cols,
                data@.len() == i * other.cols,
                forall|p: int|
                    0 <= p < data@.len() ==> #[trigger] data@[p] == dot_cell_lhs_t(
                        *self,
                        *other,
                        p / other.cols as int,
                        p % other.cols as int,
                    ),
            decreases self.cols - i,
        {
            let mut j: usize = 0;
            while j < other.cols
                invariant
                    self.wf(),
                    other.wf(),
                    self.rows == other.rows,
                    i < self.cols,
                    j <= other.cols,
                    data@.len() == i * other.cols + j,
                    forall|p: int|
                        0 <= p < data@.len() ==> #[trigger] data@[p] == dot_cell_lhs_t(
                            *self,
                            *other,
                            p / other.cols as int,
                            p % other.cols as int,
                        ),
                decreases other.cols - j,
            {
                let mut acc = A::zero();
                let mut k: usize = 0;
                while k < self.rows
                    invariant
                        self.wf(),
                        other.wf(),
                        self.rows == other.rows,
                        i < self.cols,
                        j < other.cols,
                        k <= self.rows,
                        acc == dot_cell_lhs_t_partial(*self, *other, i as int, j as int, k as nat),
                    decreases self.rows - k,
                {
                    acc = acc.plus(self.get(k, i).times(other.get(k, j)));
                    k += 1;
                }
                proof {
                    lemma_flat_index_decomposes(i as int, j as int, other.cols as int);
                }
                data.push(acc);
                j += 1;
            }
            assert((i + 1) * other.cols == i * other.cols + other.cols) by (nonlinear_arith);
            i += 1;
        }
        let r = Matrix { rows: self.cols, cols: other.cols, data };
        proof {
            assert forall|i2: int, j2: int|
                0 <= i2 < r.rows && 0 <= j2 < r.cols implies r.at(i2, j2) == dot_cell_lhs_t(
                *self,
                *other,
                i2,
                j2,
            ) by {
                lemma_flat_index(i2, j2, r.rows as int, r.cols as int);
                lemma_flat_index_decomposes(i2, j2, r.cols as int);
            }
        }
        r
    }

    /// The product `self * transpose(other)`, with `self` of shape m-by-k
    /// and `other` of shape n-by-k giving an m-by-n result.
    pub fn matmul_transpose_rhs(&self, other: &Matrix<A>) -> (r: Matrix<A>)
        requires
            self.wf(),
            other.wf(),
            self.cols == other.cols,
        ensures
            r.wf(),
            r.rows == self.rows,
            r.cols == other.rows,
            forall|i: int, j: int|
                0 <= i < r.rows && 0 <= j < r.cols ==> r.at(i, j) == dot_cell_rhs_t(
                    *self,
                    *other,
                    i,
                    j,
                ),
    {
        let mut data: Vec<A> = Vec::new();
        let mut i: usize = 0;
        while i < self.rows
            invariant
                self.wf(),
                other.wf(),
                self.cols == other.cols,
                i <= self.rows,
                data@.len() == i * other.rows,
                forall|p: int|
                    0 <= p < data@.len() ==> #[trigger] data@[p] == dot_cell_rhs_t(
                        *self,
                        *other,
                        p / other.rows as int,
                        p % other.rows as int,
                    ),
            decreases self.rows - i,
        {
            let mut j: usize = 0;
            while j < other.rows
                invariant
                    self.wf(),
                    other.wf(),
                    self.cols == other.cols,
                    i < self.rows,
                    j <= other.rows,
                    data@.len() == i * other.rows + j,
                    forall|p: int|
                        0 <= p < data@.len() ==> #[trigger] data@[p] == dot_cell_rhs_t(
                            *self,
                            *other,
                            p / other.rows as int,
                            p % other.rows as int,
                        ),
                decreases other.rows - j,
            {
                let mut acc = A::zero();
                let mut k: usize = 0;
                while k < self.cols
                    invariant
                        self.wf(),
                        other.wf(),
                        self.cols == other.cols,
                        i < self.rows,
                        j < other.rows,
                        k <= self.cols,
                        acc == dot_cell_rhs_t_partial(*self, *other, i as int, j as int, k as nat),
                    decreases self.cols - k,
                {
                    acc = acc.plus(self.get(i, k).times(other.get(j, k)));
                    k += 1;
                }
                proof {
                    lemma_flat_index_decomposes(i as int, j as int, other.rows as int);
                }
                data.push(acc);
                j += 1;
            }
            assert((i + 1) * other.rows == i * other.rows + other.rows) by (nonlinear_arith);
            i += 1;
        }
        let r = Matrix { rows: self.rows, cols: other.rows, data };
        proof {
            assert forall|i2: int, j2: int|
                0 <= i2 < r.rows && 0 <= j2 < r.cols implies r.at(i2, j2) == dot_cell_rhs_t(
                *self,
                *other,
                i2,
                j2,
            ) by {
                lemma_flat_index(i2, j2, r.rows as int, r.cols as int);
                lemma_flat_index_decomposes(i2, j2, r.cols as int);
            }
        }
        r
    }

    /// Adds `bias[i]` to every element of row `i` (broadcast over columns).
    pub fn add_col_broadcast(&self, bias: &Vec<A>) -> (r: Matrix<A>)
        requires
            self.wf(),
            bias.len() == self.rows,
        ensures
            r.wf(),
            r.rows == self.rows,
            r.cols == self.cols,
            forall|i: int, j: int|
                0 <= i < r.rows && 0 <= j < r.cols ==> r.at(i, j) == self.at(i, j).plus_spec(
                    bias@[i],
                ),
    {
        let mut data: Vec<A> = Vec::new();
        let mut i: usize = 0;
        while i < self.rows
            invariant
                self.wf(),
                bias.len() == self.rows,
                i <= self.rows,
                data@.len() == i * self.cols,
                forall|p: int|
                    0 <= p < data@.len() ==> #[trigger] data@[p] == self.data@[p].plus_spec(
                        bias@[p / self.cols as int],
                    ),
            decreases self.rows - i,
        {
            let mut j: usize = 0;
            while j < self.cols
                invariant
                    self.wf(),
                    bias.len() == self.rows,
                    i < self.rows,
                    j <= self.cols,
                    data@.len() == i * self.cols + j,
                    forall|p: int|
                        0 <= p < data@.len() ==> #[trigger] data@[p] == self.data@[p].plus_spec(
                            bias@[p / self.cols as int],
                        ),
                decreases self.cols - j,
            {
                proof {
                    lemma_flat_index_decomposes(i as int, j as int, self.cols as int);
                    lemma_flat_index(i as int, j as int, self.rows as int, self.cols as int);
                }
                data.push(self.get(i, j).plus(bias[i]));
                j += 1;
            }
            assert((i + 1) * self.cols == i * self.cols + self.cols) by (nonlinear_arith);
            i += 1;
        }
        let r = Matrix { rows: self.rows, cols: self.cols, data };
        proof {
            assert forall|i2: int, j2: int|
                0 <= i2 < r.rows && 0 <= j2 < r.cols implies r.at(i2, j2) == self.at(
                i2,
                j2,
            ).plus_spec(bias@[i2]) by {
                lemma_flat_index(i2, j2, r.rows as int, r.cols as int);
                lemma_flat_index_decomposes(i2, j2, r.cols as int);
            }
        }
        r
    }

    /// The elementwise sum `self + other` of two matrices of the same shape.
    pub fn elem_add(&self, other: &Matrix<A>) -> (r: Matrix<A>)
        requires
            self.wf(),
            other.wf(),
            self.same_shape(*other),
        ensures
            r.wf(),
            r.rows == self.rows,
            r.cols == self.cols,
            forall|k: int|
                0 <= k < r.data@.len() ==> #[trigger] r.data@[k] == self.data@[k].plus_spec(
                    other.data@[k],
                ),
    {
        let mut data: Vec<A> = Vec::new();
        let mut k: usize = 0;
        while k < self.data.len()
            invariant
                self.wf(),
                other.wf(),
                self.same_shape(*other),
                k <= self.data.len(),
                data@.len() == k,
                forall|p: int|
                    0 <= p < k ==> #[trigger] data@[p] == self.data@[p].plus_spec(other.data@[p]),
            decreases self.data.len() - k,
        {
            data.push(self.data[k].plus(other.data[k]));
            k += 1;
        }
        Matrix { rows: self.rows, cols: self.cols, data }
    }

    /// The elementwise difference `self - other` of two matrices of the same
    /// shape.
    pub fn elem_sub(&self, other: &Matrix<A>) -> (r: Matrix<A>)
        requires
            self.wf(),
            other.wf(),
            self.same_shape(*other),
        ensures
            r.wf(),
            r.rows == self.rows,
            r.cols == self.cols,
            forall|k: int|
                0 <= k < r.data@.len() ==> #[trigger] r.data@[k] == self.data@[k].minus_spec(
                    other.data@[k],
                ),
    {
        let mut data: Vec<A> = Vec::new();
        let mut k: usize = 0;
        while k < self.data.len()
            invariant
                self.wf(),
                other.wf(),
                self.same_shape(*other),
                k <= self.data.len(),
                data@.len() == k,
                forall|p: int|
                    0 <= p < k ==> #[trigger] data@[p] == self.data@[p].minus_spec(other.data@[p]),
            decreases self.data.len() - k,
        {
            data.push(self.data[k].minus(other.data[k]));
            k += 1;
        }
        Matrix { rows: self.rows, cols: self.cols, data }
    }

    /// Every element multiplied by the scalar `s`.
    pub fn scaled(&self, s: A) -> (r: Matrix<A>)
        requires
            self.wf(),
        ensures
            r.wf(),
            r.rows == self.rows,
            r.cols == self.cols,
            forall|k: int|
                0 <= k < r.data@.len() ==> #[trigger] r.data@[k] == self.data@[k].times_spec(s),
    {
        let mut data: Vec<A> = Vec::new();
        let mut k: usize = 0;
        while k < self.data.len()
            invariant
                self.wf(),
                k <= self.data.len(),
                data@.len() == k,
                forall|p: int| 0 <= p < k ==> #[trigger] data@[p] == self.data@[p].times_spec(s),
            decreases self.data.len() - k,
        {
            data.push(self.data[k].times(s));
            k += 1;
        }
        Matrix { rows: self.rows, cols: self.cols, data }
    }

    /// Every element divided by the count `n` embedded into the element type
    /// (used for mean-over-batch and mean-over-element normalization).
    pub fn div_by_count(&self, n: usize) -> (r: Matrix<A>)
        requires
            self.wf(),
        ensures
            r.wf(),
            r.rows == self.rows,
            r.cols == self.cols,
            forall|k: int|
                0 <= k < r.data@.len() ==> #[trigger] r.data@[k] == self.data@[k].div_by_spec(
                    A::of_usize_spec(n),
                ),
    {
        let d = A::of_usize(n);
        let mut data: Vec<A> = Vec::new();
        let mut k: usize = 0;
        while k < self.data.len()
            invariant
                self.wf(),
                d == A::of_usize_spec(n),
                k <= self.data.len(),
                data@.len() == k,
                forall|p: int|
                    0 <= p < k ==> #[trigger] data@[p] == self.data@[p].div_by_spec(
                        A::of_usize_spec(n),
                    ),
            decreases self.data.len() - k,
        {
            data.push(self.data[k].div_by(d));
            k += 1;
        }
        Matrix { rows: self.rows, cols: self.cols, data }
    }

    /// The sum of each row: a vector of length `rows` whose element `i` is
    /// the sum over all columns of row `i`.
    pub fn row_sum(&self) -> (r: Vec<A>)
        requires
            self.wf(),
        ensures
            r.len() == self.rows,
            forall|i: int| 0 <= i < r.len() ==> r@[i] == row_total(*self, i),
    {
        let mut out: Vec<A> = Vec::new();
        let mut i: usize = 0;
        while i < self.rows
            invariant
                self.wf(),
                i <= self.rows,
                out@.len() == i,
                forall|i2: int| 0 <= i2 < i ==> out@[i2] == row_total(*self, i2),
            decreases self.rows - i,
        {
            let mut acc = A::zero();
            let mut j: usize = 0;
            while j < self.cols
                invariant
                    self.wf(),
                    i < self.rows,
                    j <= self.cols,
                    acc == row_total_partial(*self, i as int, j as nat),
                decreases self.cols - j,
            {
                acc = acc.plus(self.get(i, j));
                j += 1;
            }
            out.push(acc);
            i += 1;
        }
        out
    }
}

/// A vector of length `n` with every element equal to `x`.
pub fn filled_vec<A: Scalar>(n: usize, x: A) -> (r: Vec<A>)
    ensures
        r.len() == n,
        forall|k: int| 0 <= k < r@.len() ==> r@[k] == x,
{
    let mut out: Vec<A> = Vec::new();
    let mut i: usize = 0;
    while i < n
        invariant
            i <= n,
            out@.len() == i,
            forall|k: int| 0 <= k < out@.len() ==> out@[k] == x,
        decreases n - i,
    {
        out.push(x);
        i += 1;
    }
    out
}

/// The elementwise sum of two vectors of the same length.
pub fn add_vecs<A: Scalar>(a: &Vec<A>, b: &Vec<A>) -> (r: Vec<A>)
    requires
        a.len() == b.len(),
    ensures
        r.len() == a.len(),
        forall|k: int| 0 <= k < r@.len() ==> #[trigger] r@[k] == a@[k].plus_spec(b@[k]),
{
    let mut out: Vec<A> = Vec::new();
    let mut k: usize = 0;
    while k < a.len()
        invariant
            a.len() == b.len(),
            k <= a.len(),
            out@.len() == k,
            forall|p: int| 0 <= p < k ==> #[trigger] out@[p] == a@[p].plus_spec(b@[p]),
        decreases a.len() - k,
    {
        out.push(a[k].plus(b[k]));
        k += 1;
    }
    out
}

/// The elementwise difference `a - b` of two vectors of the same length.
pub fn sub_vecs<A: Scalar>(a: &Vec<A>, b: &Vec<A>) -> (r: Vec<A>)
    requires
        a.len() == b.len(),
    ensures
        r.len() == a.len(),
        forall|k: int| 0 <= k < r@.len() ==> #[trigger] r@[k] == a@[k].minus_spec(b@[k]),
{
    let mut out: Vec<A> = Vec::new();
    let mut k: usize = 0;
    while k < a.len()
        invariant
            a.len() == b.len(),
            k <= a.len(),
            out@.len() == k,
            forall|p: int| 0 <= p < k ==> #[trigger] out@[p] == a@[p].minus_spec(b@[p]),
        decreases a.len() - k,
    {
        out.push(a[k].minus(b[k]));
        k += 1;
    }
    out
}

/// Every element of a vector multiplied by the scalar `s`.
pub fn scaled_vec<A: Scalar>(v: &Vec<A>, s: A) -> (r: Vec<A>)
    ensures
        r.len() == v.len(),
        forall|k: int| 0 <= k < r@.len() ==> #[trigger] r@[k] == v@[k].times_spec(s),
{
    let mut out: Vec<A> = Vec::new();
    let mut k: usize = 0;
    while k < v.len()
        invariant
            k <= v.len(),
            out@.len() == k,
            forall|p: int| 0 <= p < k ==> #[trigger] out@[p] == v@[p].times_spec(s),
        decreases v.len() - k,
    {
        out.push(v[k].times(s));
        k += 1;
    }
    out
}

/// Every element of a vector divided by the count `n` embedded into the
/// element type.
pub fn div_vec_by_count<A: Scalar>(v: &Vec<A>, n: usize) -> (r: Vec<A>)
    ensures
        r.len() == v.len(),
        forall|k: int|
            0 <= k < r@.len() ==> #[trigger] r@[k] == v@[k].div_by_spec(A::of_usize_spec(n)),
{
    let d = A::of_usize(n);
    let mut out: Vec<A> = Vec::new();
    let mut k: usize = 0;
    while k < v.len()
        invariant
            d == A::of_usize_spec(n),
            k <= v.len(),
            out@.len() == k,
            forall|p: int| 0 <= p < k ==> #[trigger] out@[p] == v@[p].div_by_spec(A::of_usize_spec(n)),
        decreases v.len() - k,
    {
        out.push(v[k].div_by(d));
        k += 1;
    }
    out
}

} // verus!
