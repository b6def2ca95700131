//! Preconditioner handles for the iterative solvers.
//!
//! The element-wise application of a preconditioner is part of the numerical
//! layer; the identity preconditioner's bookkeeping (its dimension) is kept
//! here.

use vstd::prelude::*;

verus! {

/// Identity preconditioner (no scaling).
///
/// Useful as a baseline or when no preconditioning is desired; applying it
/// returns its input unchanged.
pub struct IdentityPreconditioner {
    size: usize,
}

impl IdentityPreconditioner {
    /// The dimension the preconditioner was created with.
    pub closed spec fn spec_dim(&self) -> usize {
        self.size
    }

    /// Create an identity preconditioner of the given size.
    pub fn new(size: usize) -> (r: Self)
        ensures
            r.spec_dim() == size,
    {
        Self { size }
    }

    /// Dimension of the preconditioner.
    pub fn dim(&self) -> (r: usize)
        ensures
            r == self.spec_dim(),
    {
        self.size
    }
}

} // verus!
