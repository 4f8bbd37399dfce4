use vstd::prelude::*;

use crate::error::NnError;
use crate::scalar::{RandomSource, Scalar};
use crate::tensor::{filled_vec, Matrix};
use crate::visitor::ParamVisitor;

verus! {

/// The Xavier standard deviation for a `rows`-by-`cols` weight matrix:
/// `sqrt(2 / (rows + cols))`. The fan sum saturates at the machine word,
/// exactly as the executable fill computes it.
pub open spec fn xavier_std_dev<A: Scalar>(rows: usize, cols: usize) -> A {
    A::of_usize_spec(
        2,
    ).div_by_spec(
        A::of_usize_spec(
            if rows <= usize::MAX - cols {
                (rows + cols) as usize
            } else {
                usize::MAX
            },
        ),
    ).sqrt_spec()
}

/// Every element of `out` is the image of the matching element of `ds`
/// under scaling by `std_dev`.
pub open spec fn scaled_fill<A: Scalar>(out: Seq<A>, ds: Seq<A>, std_dev: A) -> bool {
    &&& ds.len() == out.len()
    &&& forall|k: int| 0 <= k < out.len() ==> #[trigger] out[k] == std_dev.times_spec(ds[k])
}

/// Xavier (Glorot) initialization, applied through the same parameter walk
/// the optimizers use: every rank-2 visit fills the weight matrix with
/// independent draws from a normal distribution with mean zero and standard
/// deviation `sqrt(2 / (rows + cols))`, and every rank-1 visit sets the
/// bias vector to all zeros.
///
/// The randomness comes from a caller-owned source handed in at
/// construction, so a deterministic source can be injected for repeatable
/// runs.
pub struct XavierInitializer<A, R> {
    rng: R,
    marker: core::marker::PhantomData<A>,
}

impl<A, R> XavierInitializer<A, R> {
    /// The random source the initializer draws from.
    pub closed spec fn source(&self) -> R {
        self.rng
    }
}

impl<A: Scalar, R: RandomSource<A>> XavierInitializer<A, R> {
    /// An initializer drawing from the given random source.
    pub fn new(rng: R) -> (r: XavierInitializer<A, R>)
        ensures
            r.source() == rng,
    {
        XavierInitializer { rng, marker: core::marker::PhantomData }
    }
}

impl<A: Scalar, R: RandomSource<A>> ParamVisitor<A> for XavierInitializer<A, R> {
    /// One rank-2 Xavier visit: every element of the parameter is
    /// overwritten by the image, under scaling by the fan-dependent
    /// standard deviation, of some value drawn for that element. Nothing
    /// is promised of the draws themselves (they are random), so the
    /// scaled value is existentially quantified; what is pinned is that
    /// every element was rewritten through exactly that scaling.
    open spec fn visit2_post(
        pre: Self,
        post: Self,
        param_pre: Matrix<A>,
        param_post: Matrix<A>,
        grad: Matrix<A>,
    ) -> bool {
        &&& param_post.rows == param_pre.rows
        &&& param_post.cols == param_pre.cols
        &&& param_post.data@.len() == param_pre.data@.len()
        &&& exists|ds: Seq<A>|
            #[trigger] scaled_fill(
                param_post.data@,
                ds,
                xavier_std_dev::<A>(param_pre.rows, param_pre.cols),
            )
    }

    /// One rank-1 Xavier visit: the bias is set to all zeros.
    open spec fn visit1_post(
        pre: Self,
        post: Self,
        param_pre: Vec<A>,
        param_post: Vec<A>,
        grad: Vec<A>,
    ) -> bool {
        &&& param_post@.len() == param_pre@.len()
        &&& forall|k: int|
            0 <= k < param_post@.len() ==> #[trigger] param_post@[k] == A::zero_spec()
    }

    fn visit_array2_with_grad(&mut self, param: &mut Matrix<A>, grad: &Matrix<A>) -> (r: Result<
        (),
        NnError,
    >)
        ensures
            r is Ok,
    {
        // A standard normal draw scaled by sqrt(2 / (rows + cols)) is a
        // draw from the normal distribution with that standard deviation.
        let fan_sum = if param.rows <= usize::MAX - param.cols {
            param.rows + param.cols
        } else {
            usize::MAX
        };
        let std_dev = A::of_usize(2).div_by(A::of_usize(fan_sum)).sqrt();
        proof {
            assert(std_dev == xavier_std_dev::<A>(param.rows, param.cols));
        }
        let mut data: Vec<A> = Vec::new();
        let ghost mut draws: Seq<A> = Seq::empty();
        let n = param.data.len();
        let mut k: usize = 0;
        while k < n
            invariant
                k <= n,
                data@.len() == k,
                draws.len() == k,
                std_dev == xavier_std_dev::<A>(old(param).rows, old(param).cols),
                forall|p: int|
                    0 <= p < k ==> #[trigger] data@[p] == xavier_std_dev::<A>(
                        old(param).rows,
                        old(param).cols,
                    ).times_spec(draws[p]),
            decreases n - k,
        {
            let draw = self.rng.sample_standard_normal();
            data.push(std_dev.times(draw));
            proof {
                draws = draws.push(draw);
            }
            k += 1;
        }
        *param = Matrix { rows: param.rows, cols: param.cols, data };
        proof {
            assert(scaled_fill(
                param.data@,
                draws,
                xavier_std_dev::<A>(old(param).rows, old(param).cols),
            ));
        }
        Ok(())
    }

    fn visit_array1_with_grad(&mut self, param: &mut Vec<A>, grad: &Vec<A>) -> (r: Result<
        (),
        NnError,
    >)
        ensures
            r is Ok,
    {
        *param = filled_vec(param.len(), A::zero());
        Ok(())
    }
}

} // verus!
