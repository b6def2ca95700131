//! Thresholds for the compute-shader batched LU path.
//!
//! The shader factors each matrix of a batch in workgroup-shared memory, one
//! workgroup per system, which bounds the matrix dimension; and a batch must
//! be large enough to amortise the dispatch overhead.  These thresholds are
//! deliberately higher than the generic GPU batch thresholds.

use vstd::prelude::*;

verus! {

/// Maximum matrix dimension supported (limited by workgroup shared memory).
pub const MAX_MATRIX_SIZE: usize = 128;

/// Minimum batch size for the compute-shader path to be worthwhile.
pub const MIN_BATCH_SIZE: usize = 2000;

/// Minimum matrix size for the compute-shader path to be worthwhile.
pub const MIN_MATRIX_SIZE: usize = 100;

/// Configuration for the compute-shader batched LU path.
#[derive(Debug, Clone)]
pub struct GpuBatchConfig {
    /// Minimum batch size to use the GPU.
    pub min_batch_size: usize,
    /// Minimum matrix dimension to use the GPU.
    pub min_matrix_size: usize,
    /// Maximum matrix size (limited by the shader's workgroup memory).
    pub max_matrix_size: usize,
}

impl GpuBatchConfig {
    /// The default thresholds as a value usable in contracts.
    pub open spec fn spec_default() -> GpuBatchConfig {
        GpuBatchConfig {
            min_batch_size: MIN_BATCH_SIZE,
            min_matrix_size: MIN_MATRIX_SIZE,
            max_matrix_size: MAX_MATRIX_SIZE,
        }
    }
}

impl Default for GpuBatchConfig {
    fn default() -> (r: Self)
        ensures
            r == GpuBatchConfig::spec_default(),
    {
        Self {
            min_batch_size: MIN_BATCH_SIZE,
            min_matrix_size: MIN_MATRIX_SIZE,
            max_matrix_size: MAX_MATRIX_SIZE,
        }
    }
}

impl GpuBatchConfig {
    /// Check if the GPU should be used for the given problem size: the
    /// matrix must fit the shader's bound and both sizes must reach their
    /// thresholds.
    pub fn should_use_gpu(&self, matrix_size: usize, batch_size: usize) -> (r: bool)
        ensures
            r == (matrix_size >= self.min_matrix_size && matrix_size <= self.max_matrix_size
                && batch_size >= self.min_batch_size),
    {
        matrix_size >= self.min_matrix_size && matrix_size <= self.max_matrix_size && batch_size
            >= self.min_batch_size
    }
}

} // verus!
