//! Shared definitions for transient analysis.
//!
//! The transient engine itself — companion stamping, the time loop and the
//! adaptive stepper — belongs to the numerical layer; the integration-method
//! selection is shared from here.

use vstd::prelude::*;

verus! {

/// Integration method for transient analysis.
#[derive(Debug, Clone, Copy, PartialEq, Eq, Structural)]
pub enum IntegrationMethod {
    /// Backward Euler (first order, A-stable).
    BackwardEuler,
    /// Trapezoidal (second order, A-stable).
    Trapezoidal,
    /// TR-BDF2 (second order, L-stable, good for stiff circuits).
    ///
    /// A composite method: a trapezoidal stage over the first fraction of
    /// the step, then a BDF2 stage over the remainder.  Provides L-stability
    /// without the numerical ringing of pure trapezoidal integration.
    TrBdf2,
}

} // verus!
