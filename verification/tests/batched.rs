//! Tests for batched-solve bookkeeping and backend selection.

use spicier::backends::{
    AccelerateBatchedSolver, BackendSelector, CpuBatchedSolver, CudaBatchedSolver,
    MetalBatchedSolver,
};
use spicier::batched::{
    batch_dims_ok, singular_indices_from_info, BackendType, BatchedSolveResult, GpuBatchConfig,
};

#[test]
fn solver_test_config_thresholds() {
    let config = GpuBatchConfig::default();

    assert!(!config.should_use_gpu(16, 8));
    assert!(!config.should_use_gpu(64, 8));
    assert!(!config.should_use_gpu(16, 32));
    assert!(config.should_use_gpu(64, 32));
}

#[test]
fn batched_lu_test_config_thresholds() {
    let config = spicier::batched_lu::GpuBatchConfig::default();

    // Default thresholds: min_batch=2000, min_matrix=100
    assert!(!config.should_use_gpu(50, 100)); // Matrix too small
    assert!(!config.should_use_gpu(100, 100)); // Batch too small
    assert!(config.should_use_gpu(100, 2000)); // Both OK
    assert!(!config.should_use_gpu(200, 2000)); // Matrix too large
}

#[test]
fn test_accelerate_backend_type() {
    let solver = AccelerateBatchedSolver::new(GpuBatchConfig::default());
    assert_eq!(solver.backend_type(), BackendType::Accelerate);
}

#[test]
fn test_cuda_backend_type() {
    let solver = match CudaBatchedSolver::try_new(GpuBatchConfig::default()) {
        Some(s) => s,
        None => {
            println!("Skipping test: no CUDA device available");
            return;
        }
    };

    assert_eq!(solver.backend_type(), BackendType::Cuda);
}

#[test]
fn test_metal_backend_type() {
    let solver = match MetalBatchedSolver::try_new(GpuBatchConfig::default()) {
        Some(s) => s,
        None => {
            println!("Skipping test: Metal not available");
            return;
        }
    };

    assert_eq!(solver.backend_type(), BackendType::Metal);
}

#[test]
fn test_cpu_solver_metadata() {
    let solver = CpuBatchedSolver::new(GpuBatchConfig::default());
    assert_eq!(solver.backend_type(), BackendType::Cpu);
    assert!(!solver.should_use_gpu(1000, 1000));
    assert_eq!(solver.config().min_batch_size, 16);
    assert_eq!(solver.config().min_matrix_size, 32);
    assert_eq!(solver.config().max_batch_per_launch, 65535);
}

#[test]
fn test_backend_selector_constructors() {
    assert_eq!(BackendSelector::auto().preferred, None);
    assert_eq!(
        BackendSelector::prefer_cuda().preferred,
        Some(BackendType::Cuda)
    );
    assert_eq!(
        BackendSelector::prefer_metal().preferred,
        Some(BackendType::Metal)
    );
    assert_eq!(BackendSelector::cpu_only().preferred, Some(BackendType::Cpu));

    let custom = GpuBatchConfig {
        min_batch_size: 4,
        min_matrix_size: 8,
        max_batch_per_launch: 100,
    };
    let selector = BackendSelector::auto().with_config(custom);
    assert_eq!(selector.config.min_batch_size, 4);
    assert_eq!(selector.config.min_matrix_size, 8);
    assert_eq!(selector.config.max_batch_per_launch, 100);
}

#[test]
fn test_backend_names() {
    assert_eq!(BackendType::Cuda.name(), "CUDA");
    assert_eq!(BackendType::Metal.name(), "Metal");
    assert_eq!(BackendType::Mps.name(), "MPS");
    assert_eq!(BackendType::Accelerate.name(), "Accelerate");
    assert_eq!(BackendType::Faer.name(), "Faer");
    assert_eq!(BackendType::Cpu.name(), "CPU");
}

#[test]
fn test_num_solved_accounting() {
    // num_solved + singular_indices.len() == batch_size for every cohort.
    let result = BatchedSolveResult {
        solutions: vec![0.0_f64; 6],
        singular_indices: vec![0, 2],
        n: 2,
        batch_size: 3,
    };
    assert_eq!(result.num_solved() + result.singular_indices.len(), 3);
    assert_eq!(result.num_solved(), 1);

    let clean: BatchedSolveResult<f64> = BatchedSolveResult {
        solutions: vec![1.0; 4],
        singular_indices: vec![],
        n: 2,
        batch_size: 2,
    };
    assert_eq!(clean.num_solved() + clean.singular_indices.len(), 2);
    assert_eq!(clean.num_solved(), 2);
}

#[test]
fn test_solution_slicing() {
    let result = BatchedSolveResult {
        solutions: vec![1.0, 2.0, 3.0, 4.0],
        singular_indices: vec![1],
        n: 2,
        batch_size: 2,
    };

    assert_eq!(result.solution(0), Some(&[1.0, 2.0][..]));
    assert_eq!(result.solution(1), Some(&[3.0, 4.0][..]));
    assert_eq!(result.solution(2), None);

    assert!(!result.is_singular(0));
    assert!(result.is_singular(1));
    assert!(!result.is_singular(2));
}

#[test]
fn test_empty_batch_result() {
    // A zero-sized batch yields an empty result without error.
    let result: BatchedSolveResult<f64> = BatchedSolveResult::empty(4);
    assert_eq!(result.batch_size, 0);
    assert_eq!(result.n, 4);
    assert!(result.solutions.is_empty());
    assert!(result.singular_indices.is_empty());
    assert_eq!(result.num_solved(), 0);
    assert_eq!(result.solution(0), None);
}

#[test]
fn test_batch_dims_ok() {
    // 3 systems of size 2: 3 * 2 * 2 = 12 matrix entries, 3 * 2 = 6 RHS.
    assert!(batch_dims_ok(12, 6, 2, 3));
    assert!(!batch_dims_ok(11, 6, 2, 3));
    assert!(!batch_dims_ok(12, 5, 2, 3));
    // Zero batch: both buffers must be empty.
    assert!(batch_dims_ok(0, 0, 4, 0));
    assert!(!batch_dims_ok(1, 0, 4, 0));
    // Huge products do not overflow the check.
    assert!(!batch_dims_ok(usize::MAX, usize::MAX, usize::MAX, usize::MAX));
}

#[test]
fn test_singular_indices_from_info() {
    // LAPACK-style info codes: 0 success, > 0 singular.
    let info = vec![0, 3, 0, 1, 0];
    assert_eq!(singular_indices_from_info(&info), vec![1, 3]);

    let all_ok = vec![0, 0, 0];
    assert!(singular_indices_from_info(&all_ok).is_empty());

    let empty: Vec<i32> = vec![];
    assert!(singular_indices_from_info(&empty).is_empty());
}
