//! Batched LU solve bookkeeping and backend identification.
//!
//! A cohort of linear systems that share one sparsity pattern is solved in a
//! single batch.  The numerical factorisation itself runs in a backend; this
//! module pins down everything around it: the result layout (flattened
//! solutions, per-system slicing, singular-system accounting), the thresholds
//! that decide when a GPU batch is worthwhile, and the error taxonomy.

use vstd::prelude::*;

verus! {

/// Maximum batch size supported by most GPU backends in one launch.
pub const MAX_BATCH_SIZE: usize = 65535;

/// Minimum batch size for the GPU to be worthwhile (kernel launch overhead).
pub const MIN_BATCH_SIZE: usize = 16;

/// Minimum matrix size for the GPU to be worthwhile.
pub const MIN_MATRIX_SIZE: usize = 32;

/// Configuration for GPU batched operations.
#[derive(Debug, Clone)]
pub struct GpuBatchConfig {
    /// Minimum batch size to use the GPU (below this, the CPU is used).
    pub min_batch_size: usize,
    /// Minimum matrix dimension to use the GPU.
    pub min_matrix_size: usize,
    /// Maximum batch size per GPU launch.
    pub max_batch_per_launch: usize,
}

impl GpuBatchConfig {
    /// The default thresholds as a value usable in contracts.
    pub open spec fn spec_default() -> GpuBatchConfig {
        GpuBatchConfig {
            min_batch_size: MIN_BATCH_SIZE,
            min_matrix_size: MIN_MATRIX_SIZE,
            max_batch_per_launch: MAX_BATCH_SIZE,
        }
    }
}

impl Default for GpuBatchConfig {
    fn default() -> (r: Self)
        ensures
            r == GpuBatchConfig::spec_default(),
    {
        Self {
            min_batch_size: MIN_BATCH_SIZE,
            min_matrix_size: MIN_MATRIX_SIZE,
            max_batch_per_launch: MAX_BATCH_SIZE,
        }
    }
}

impl GpuBatchConfig {
    /// Check if the GPU should be used for the given problem size.
    pub fn should_use_gpu(&self, matrix_size: usize, batch_size: usize) -> (r: bool)
        ensures
            r == (matrix_size >= self.min_matrix_size && batch_size >= self.min_batch_size),
    {
        matrix_size >= self.min_matrix_size && batch_size >= self.min_batch_size
    }
}

/// Type of backend used for a batched solve.
#[derive(Debug, Clone, Copy, PartialEq, Eq, Structural)]
pub enum BackendType {
    /// NVIDIA CUDA backend.
    Cuda,
    /// Apple Metal backend (via WebGPU compute shaders).
    Metal,
    /// Apple Metal Performance Shaders backend.
    Mps,
    /// Apple Accelerate framework (CPU LAPACK) backend.
    Accelerate,
    /// CPU sparse backend with cached symbolic factorisation.
    Faer,
    /// CPU fallback (no GPU).
    Cpu,
}

impl BackendType {
    /// A short display name for the backend.
    pub fn name(&self) -> (r: &'static str)
        ensures
            *self is Cuda ==> r@ == "CUDA"@,
            *self is Metal ==> r@ == "Metal"@,
            *self is Mps ==> r@ == "MPS"@,
            *self is Accelerate ==> r@ == "Accelerate"@,
            *self is Faer ==> r@ == "Faer"@,
            *self is Cpu ==> r@ == "CPU"@,
    {
        match self {
            BackendType::Cuda => "CUDA",
            BackendType::Metal => "Metal",
            BackendType::Mps => "MPS",
            BackendType::Accelerate => "Accelerate",
            BackendType::Faer => "Faer",
            BackendType::Cpu => "CPU",
        }
    }
}

/// Errors that can occur during batched sweep operations.
#[derive(Debug)]
pub enum BatchedSweepError {
    /// No GPU backend is available.
    NoBackendAvailable,
    /// Backend initialization failed.
    BackendInit(String),
    /// Memory allocation failed.
    MemoryAlloc(String),
    /// Data transfer failed.
    Transfer(String),
    /// Invalid dimensions provided.
    InvalidDimension(String),
    /// Batch size exceeds the backend limit.
    BatchTooLarge { size: usize, max: usize },
    /// Some matrices in the batch were singular.
    SingularBatch { indices: Vec<usize>, total: usize },
    /// Backend-specific error.
    Backend(String),
    /// Error reported by the underlying linear solver.
    Solver(String),
}

/// Result of a batched LU solve operation.
#[derive(Debug, Clone)]
pub struct BatchedSolveResult<T> {
    /// Solutions for each system (flattened: `batch_size * n` elements).
    pub solutions: Vec<T>,
    /// Indices of matrices that were singular, in increasing order.
    pub singular_indices: Vec<usize>,
    /// Matrix dimension.
    pub n: usize,
    /// Number of systems solved.
    pub batch_size: usize,
}

impl<T> BatchedSolveResult<T> {
    /// Layout consistency: one length-`n` solution per system, and singular
    /// indices that name systems of this batch, strictly increasing.
    pub open spec fn wf(&self) -> bool {
        &&& self.solutions@.len() == self.batch_size * self.n
        &&& forall|k: int|
            0 <= k < self.singular_indices@.len() ==> self.singular_indices@[k] < self.batch_size
        &&& forall|k: int, l: int|
            0 <= k < l < self.singular_indices@.len() ==> self.singular_indices@[k]
                < self.singular_indices@[l]
    }

    /// An empty result: no systems, no solutions, no singular indices.
    pub fn empty(n: usize) -> (r: Self)
        ensures
            r.wf(),
            r.n == n,
            r.batch_size == 0,
            r.solutions@.len() == 0,
            r.singular_indices@.len() == 0,
    {
        Self { solutions: Vec::new(), singular_indices: Vec::new(), n, batch_size: 0 }
    }

    /// Get the solution for a specific system, or `None` when the index is
    /// out of range.
    pub fn solution(&self, index: usize) -> (r: Option<&[T]>)
        requires
            self.wf(),
        ensures
            index >= self.batch_size ==> r is None,
            index < self.batch_size ==> (r matches Some(s) && s@ == self.solutions@.subrange(
                index * self.n,
                index * self.n + self.n,
            )),
    {
        if index >= self.batch_size {
            return None;
        }
        proof {
            assert((index + 1) * self.n <= self.batch_size * self.n) by (nonlinear_arith)
                requires index + 1 <= self.batch_size, 0 <= self.n;
            assert((index + 1) * self.n == index * self.n + self.n) by (nonlinear_arith);
        }
        let _solutions_len = self.solutions.len();
        let start = index * self.n;
        let end = start + self.n;
        Some(&self.solutions.as_slice()[start..end])
    }

    /// Check if a specific system was singular.
    pub fn is_singular(&self, index: usize) -> (r: bool)
        ensures
            r == self.singular_indices@.contains(index),
    {
        let m = self.singular_indices.len();
        let mut k: usize = 0;
        while k < m
            invariant
                k <= m,
                m == self.singular_indices@.len(),
                forall|k2: int| 0 <= k2 < k ==> self.singular_indices@[k2] != index,
            decreases m - k,
        {
            if self.singular_indices[k] == index {
                proof {
                    assert(self.singular_indices@.contains(index));
                }
                return true;
            }
            k = k + 1;
        }
        proof {
            assert(!self.singular_indices@.contains(index)) by {
                if self.singular_indices@.contains(index) {
                    let k2 = choose|k2: int|
                        0 <= k2 < self.singular_indices@.len() && self.singular_indices@[k2]
                            == index;
                }
            }
        }
        false
    }

    /// Number of successfully solved systems.
    ///
    /// Together with the singular systems this accounts for the whole batch:
    /// the result plus `singular_indices.len()` always equals `batch_size`.
    pub fn num_solved(&self) -> (r: usize)
        requires
            self.wf(),
        ensures
            r + self.singular_indices@.len() == self.batch_size,
    {
        proof {
            lemma_increasing_bounded_len(self.singular_indices@, self.batch_size as nat);
        }
        self.batch_size - self.singular_indices.len()
    }
}

/// A strictly increasing index is at least its position.
proof fn lemma_increasing_lower_bound(s: Seq<usize>, i: int)
    requires
        0 <= i < s.len(),
        forall|k: int, l: int| 0 <= k < l < s.len() ==> s[k] < s[l],
    ensures
        s[i] >= i,
    decreases i,
{
    if i > 0 {
        lemma_increasing_lower_bound(s, i - 1);
        assert(s[i - 1] < s[i]);
    }
}

/// A strictly increasing sequence of indices below `bound` has at most
/// `bound` entries.
proof fn lemma_increasing_bounded_len(s: Seq<usize>, bound: nat)
    requires
        forall|k: int| 0 <= k < s.len() ==> s[k] < bound,
        forall|k: int, l: int| 0 <= k < l < s.len() ==> s[k] < s[l],
    ensures
        s.len() <= bound,
{
    if s.len() > 0 {
        lemma_increasing_lower_bound(s, s.len() - 1);
        assert(s[s.len() - 1] >= s.len() - 1);
        assert(s[s.len() - 1] < bound);
    }
}

/// Check that flattened batch buffers have consistent sizes: `batch_size`
/// column-major `n` by `n` matrices and `batch_size` length-`n` right-hand
/// sides.
pub fn batch_dims_ok(matrices_len: usize, rhs_len: usize, n: usize, batch_size: usize) -> (r: bool)
    ensures
        r == (matrices_len == batch_size * n * n && rhs_len == batch_size * n),
{
    let rhs_expected = match batch_size.checked_mul(n) {
        Some(v) => v,
        None => {
            proof {
                assert(batch_size * n > usize::MAX);
                assert(batch_size * n * n >= batch_size * n) by (nonlinear_arith)
                    requires batch_size * n > usize::MAX, n >= 1;
            }
            return false;
        },
    };
    let matrices_expected = match rhs_expected.checked_mul(n) {
        Some(v) => v,
        None => {
            proof {
                assert(batch_size * n * n > usize::MAX);
            }
            return false;
        },
    };
    matrices_len == matrices_expected && rhs_len == rhs_expected
}

/// The per-system status codes of a batched factorisation, as LAPACK-style
/// info values: zero for success, positive when a zero pivot was met.  The
/// returned list holds exactly the indices whose code is positive, in
/// increasing order.
pub fn singular_indices_from_info(info: &Vec<i32>) -> (r: Vec<usize>)
    ensures
        forall|k: int| 0 <= k < r@.len() ==> r@[k] < info@.len() && info@[r@[k] as int] > 0,
        forall|i: int| 0 <= i < info@.len() && info@[i] > 0 ==> r@.contains(i as usize),
        forall|k: int, l: int| 0 <= k < l < r@.len() ==> r@[k] < r@[l],
{
    let m = info.len();
    let mut r: Vec<usize> = Vec::new();
    let mut i: usize = 0;
    while i < m
        invariant
            i <= m,
            m == info@.len(),
            forall|k: int| 0 <= k < r@.len() ==> r@[k] < i && info@[r@[k] as int] > 0,
            forall|j: int| 0 <= j < i && info@[j] > 0 ==> r@.contains(j as usize),
            forall|k: int, l: int| 0 <= k < l < r@.len() ==> r@[k] < r@[l],
        decreases m - i,
    {
        let ghost r_before = r@;
        if info[i] > 0 {
            r.push(i);
            proof {
                assert(r@[r_before.len() as int] == i as usize);
                assert(r@.contains(i as usize));
            }
        }
        proof {
            assert forall|j: int| 0 <= j < i + 1 && info@[j] > 0 implies #[trigger] r@.contains(
                j as usize,
            ) by {
                if j < i {
                    assert(r_before.contains(j as usize));
                    let k = choose|k: int| 0 <= k < r_before.len() && r_before[k] == j as usize;
                    assert(r@[k] == j as usize);
                } else {
                    assert(r@.contains(i as usize));
                }
            }
        }
        i = i + 1;
    }
    r
}

} // verus!
