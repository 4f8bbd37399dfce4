use vstd::prelude::*;

verus! {

/// The errors a component of the training core can report.
///
/// These are programming or integration errors, not transient runtime
/// conditions: the caller is expected to abort the current training step.
#[derive(Debug, Clone, Copy, PartialEq, Eq, Structural)]
pub enum NnError {
    /// `backward` was invoked before a matching `forward` had cached the
    /// state it needs.
    PreconditionViolation,
    /// Two tensors that must agree in shape do not; carries the expected
    /// and the actual shape (a rank-1 tensor of length n is reported as
    /// an n-by-1 shape).
    ShapeMismatch {
        expected_rows: usize,
        expected_cols: usize,
        actual_rows: usize,
        actual_cols: usize,
    },
}

} // verus!
