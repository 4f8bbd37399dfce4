use vstd::prelude::*;

use crate::error::NnError;
use crate::scalar::Scalar;
use crate::tensor::Matrix;

verus! {

/// A capability applied uniformly to every (parameter, gradient) pair of a
/// parameterized component, dispatched by tensor rank. Optimizers and
/// initializers implement this, and never need to know which component owns
/// the tensor they are handed.
///
/// Each visit method is paired with a specification predicate
/// (`visit2_post`, `visit1_post`) through which the implementation states
/// what one visit does to the visitor's own state and to the parameter,
/// given the gradient it saw. A component's parameter walk is then
/// described as a chain of these predicates, so a caller of `visit_params`
/// knows which pairs were visited, in which order, and — for a concrete
/// visitor — exactly how each parameter changed.
///
/// A visit may rewrite the parameter's values but never its shape; a
/// visitor that detects an inconsistency reports it instead of touching
/// the parameter.
pub trait ParamVisitor<A: Scalar>: Sized {
    /// What one successful rank-2 visit means: how the visitor went from
    /// `pre` to `post` while taking the parameter from `param_pre` to
    /// `param_post`, having seen the gradient `grad`.
    spec fn visit2_post(
        pre: Self,
        post: Self,
        param_pre: Matrix<A>,
        param_post: Matrix<A>,
        grad: Matrix<A>,
    ) -> bool;

    /// The rank-1 counterpart of `visit2_post`.
    spec fn visit1_post(
        pre: Self,
        post: Self,
        param_pre: Vec<A>,
        param_post: Vec<A>,
        grad: Vec<A>,
    ) -> bool;

    /// Visits a rank-2 parameter together with its accumulated gradient.
    fn visit_array2_with_grad(&mut self, param: &mut Matrix<A>, grad: &Matrix<A>) -> (r: Result<
        (),
        NnError,
    >)
        requires
            old(param).wf(),
            grad.wf(),
            old(param).same_shape(*grad),
        ensures
            final(param).wf(),
            final(param).rows == old(param).rows,
            final(param).cols == old(param).cols,
            r is Ok ==> Self::visit2_post(
                *old(self),
                *final(self),
                *old(param),
                *final(param),
                *grad,
            ),
            r is Err ==> *final(param) == *old(param),
    ;

    /// Visits a rank-1 parameter together with its accumulated gradient.
    fn visit_array1_with_grad(&mut self, param: &mut Vec<A>, grad: &Vec<A>) -> (r: Result<
        (),
        NnError,
    >)
        requires
            old(param).len() == grad.len(),
        ensures
            final(param).len() == old(param).len(),
            r is Ok ==> Self::visit1_post(
                *old(self),
                *final(self),
                *old(param),
                *final(param),
                *grad,
            ),
            r is Err ==> *final(param) == *old(param),
    ;
}

/// A component that owns trainable state: it can walk all of its
/// (parameter, gradient) pairs with a visitor, in a fixed order that is the
/// same on every call, and it can reset all of its gradients to zero.
pub trait Parameterized<A: Scalar>: Sized {
    /// Structural well-formedness of the component's parameter state.
    spec fn params_wf(&self) -> bool;

    /// Calls the visitor once per owned (parameter, gradient) pair, in a
    /// fixed deterministic order. Stops at the first visit that reports an
    /// error and passes that error on.
    fn visit_params<V: ParamVisitor<A>>(&mut self, visitor: &mut V) -> (r: Result<(), NnError>)
        requires
            old(self).params_wf(),
        ensures
            final(self).params_wf(),
    ;

    /// Resets every gradient tensor to all zeros; parameters are untouched.
    fn zero_grad(&mut self)
        requires
            old(self).params_wf(),
        ensures
            final(self).params_wf(),
    ;
}

} // verus!
