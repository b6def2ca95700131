//! Core engine pieces of a SPICE-class circuit simulator that admit exact
//! contracts: convergence tracking for batched Newton-Raphson sweeps,
//! batched-solve bookkeeping, and size- and hardware-driven solver dispatch.

pub mod backends;
pub mod batched;
pub mod batched_lu;
pub mod convergence;
pub mod dispatch;
pub mod preconditioner;
pub mod transient;
