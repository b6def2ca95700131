//! Tests for the solver dispatch configuration.

use spicier::dispatch::{ComputeBackend, DispatchConfig, GpuBatchConfig, SolverDispatchStrategy};
use spicier::preconditioner::IdentityPreconditioner;
use spicier::transient::IntegrationMethod;

#[test]
fn default_config() {
    let config = DispatchConfig::default();
    assert_eq!(config.backend, ComputeBackend::Cpu);
    assert_eq!(config.cpu_threshold, 1000);
    assert_eq!(config.gmres_threshold, 10_000);
}

#[test]
fn use_gpu_decision() {
    let cpu_config = DispatchConfig::cpu();
    assert!(!cpu_config.use_gpu(500));
    assert!(!cpu_config.use_gpu(5000));

    let cuda_config = DispatchConfig::cuda(0).with_cpu_threshold(1000);
    assert!(!cuda_config.use_gpu(500)); // Below threshold
    assert!(cuda_config.use_gpu(1500)); // Above threshold
}

#[test]
fn use_gmres_decision() {
    let config = DispatchConfig::default();

    // Auto: uses threshold
    assert!(!config.use_gmres(5000));
    assert!(config.use_gmres(15000));

    // Force direct LU
    let lu_config = config.clone().with_strategy(SolverDispatchStrategy::DirectLU);
    assert!(!lu_config.use_gmres(15000));

    // Force GMRES
    let gmres_config = config
        .clone()
        .with_strategy(SolverDispatchStrategy::IterativeGmres);
    assert!(gmres_config.use_gmres(500));
}

#[test]
fn describe_output() {
    let config = DispatchConfig::cuda(0)
        .with_cpu_threshold(1000)
        .with_gmres_threshold(5000);

    // Small: CPU + LU
    assert_eq!(config.describe(500), "Direct LU with CPU");

    // Medium: GPU + LU
    assert_eq!(config.describe(2000), "Direct LU with CUDA");

    // Large: GPU + GMRES
    assert_eq!(config.describe(10000), "GMRES with CUDA");
}

#[test]
fn strategy_from_name() {
    assert_eq!(
        SolverDispatchStrategy::from_name("auto"),
        Some(SolverDispatchStrategy::Auto)
    );
    assert_eq!(
        SolverDispatchStrategy::from_name("LU"),
        Some(SolverDispatchStrategy::DirectLU)
    );
    assert_eq!(
        SolverDispatchStrategy::from_name("gmres"),
        Some(SolverDispatchStrategy::IterativeGmres)
    );
    assert_eq!(SolverDispatchStrategy::from_name("invalid"), None);
}

#[test]
fn strategy_from_name_mixed_case() {
    assert_eq!(
        SolverDispatchStrategy::from_name("DirectLU"),
        Some(SolverDispatchStrategy::DirectLU)
    );
    assert_eq!(
        SolverDispatchStrategy::from_name("direct"),
        Some(SolverDispatchStrategy::DirectLU)
    );
    assert_eq!(
        SolverDispatchStrategy::from_name("Iterative"),
        Some(SolverDispatchStrategy::IterativeGmres)
    );
    assert_eq!(
        SolverDispatchStrategy::from_name("AUTO"),
        Some(SolverDispatchStrategy::Auto)
    );
    assert_eq!(SolverDispatchStrategy::from_name(""), None);
}

#[test]
fn use_gpu_batch_decision() {
    // CPU backend: never use GPU batch
    let cpu_config = DispatchConfig::cpu();
    assert!(!cpu_config.use_gpu_batch(64, 32));
    assert!(!cpu_config.use_gpu_batch(100, 100));

    // CUDA backend with default thresholds
    let cuda_config = DispatchConfig::cuda(0);
    // Default: min_matrix_size = 32, min_batch_size = 16

    // Below both thresholds
    assert!(!cuda_config.use_gpu_batch(16, 8));

    // Matrix size OK, batch too small
    assert!(!cuda_config.use_gpu_batch(64, 8));

    // Batch OK, matrix too small
    assert!(!cuda_config.use_gpu_batch(16, 32));

    // Both OK
    assert!(cuda_config.use_gpu_batch(64, 32));
    assert!(cuda_config.use_gpu_batch(100, 100));
}

#[test]
fn custom_gpu_batch_config() {
    let config = DispatchConfig::cuda(0).with_gpu_batch_config(GpuBatchConfig {
        min_batch_size: 8,
        min_matrix_size: 16,
        max_batch_per_launch: 1000,
    });

    // Now lower thresholds
    assert!(config.use_gpu_batch(16, 8));
    assert!(!config.use_gpu_batch(15, 8));
    assert!(!config.use_gpu_batch(16, 7));
}

#[test]
fn metal_backend_config() {
    let config = DispatchConfig::metal(String::from("test-adapter"));
    assert_eq!(
        config.backend,
        ComputeBackend::Metal {
            adapter_name: String::from("test-adapter")
        }
    );
    assert!(config.use_gpu(2000));
    assert!(!config.use_gpu(500));
    assert_eq!(config.describe(2000), "Direct LU with Metal");
}

#[test]
fn identity_preconditioner_dim() {
    let identity = IdentityPreconditioner::new(5);
    assert_eq!(identity.dim(), 5);
}

#[test]
fn integration_method_values() {
    assert_eq!(IntegrationMethod::Trapezoidal, IntegrationMethod::Trapezoidal);
    assert_ne!(
        IntegrationMethod::BackwardEuler,
        IntegrationMethod::Trapezoidal
    );
    assert_ne!(IntegrationMethod::TrBdf2, IntegrationMethod::Trapezoidal);
}
