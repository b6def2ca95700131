//! Backend selection and the per-backend solver handles.
//!
//! Every batched solver carries a [`GpuBatchConfig`] and identifies itself
//! with a [`BackendType`]; the numerical factorisation kernels themselves run
//! outside the verified core.  Construction of a hardware-backed solver
//! probes for the hardware and reports an initialization error when it is
//! absent.

use vstd::prelude::*;

use crate::batched::{BackendType, BatchedSweepError, GpuBatchConfig};

verus! {

/// Selector for choosing the appropriate backend for batched solves.
#[derive(Debug, Clone)]
pub struct BackendSelector {
    /// Preferred backend type, or `None` for automatic detection.
    pub preferred: Option<BackendType>,
    /// Configuration for batch operations.
    pub config: GpuBatchConfig,
}

impl Default for BackendSelector {
    fn default() -> (r: Self)
        ensures
            r.preferred is None,
            r.config == GpuBatchConfig::spec_default(),
    {
        Self { preferred: None, config: GpuBatchConfig::default() }
    }
}

impl BackendSelector {
    /// Create a new backend selector with automatic detection.
    pub fn auto() -> (r: Self)
        ensures
            r.preferred is None,
            r.config == GpuBatchConfig::spec_default(),
    {
        Self::default()
    }

    /// Create a selector that prefers CUDA.
    pub fn prefer_cuda() -> (r: Self)
        ensures
            r.preferred == Some(BackendType::Cuda),
            r.config == GpuBatchConfig::spec_default(),
    {
        Self { preferred: Some(BackendType::Cuda), config: GpuBatchConfig::default() }
    }

    /// Create a selector that prefers Metal.
    pub fn prefer_metal() -> (r: Self)
        ensures
            r.preferred == Some(BackendType::Metal),
            r.config == GpuBatchConfig::spec_default(),
    {
        Self { preferred: Some(BackendType::Metal), config: GpuBatchConfig::default() }
    }

    /// Create a selector that forces the CPU fallback.
    pub fn cpu_only() -> (r: Self)
        ensures
            r.preferred == Some(BackendType::Cpu),
            r.config == GpuBatchConfig::spec_default(),
    {
        Self { preferred: Some(BackendType::Cpu), config: GpuBatchConfig::default() }
    }

    /// Set a custom configuration.
    pub fn with_config(self, config: GpuBatchConfig) -> (r: Self)
        ensures
            r.preferred == self.preferred,
            r.config == config,
    {
        Self { preferred: self.preferred, config }
    }
}

/// CPU fallback solver; the per-system LU factorisation runs in the
/// numerical layer.
pub struct CpuBatchedSolver {
    config: GpuBatchConfig,
}

impl CpuBatchedSolver {
    /// The configuration the solver was created with.
    pub closed spec fn spec_config(&self) -> GpuBatchConfig {
        self.config
    }

    /// Create a new CPU batched solver.
    pub fn new(config: GpuBatchConfig) -> (r: Self)
        ensures
            r.spec_config() == config,
    {
        Self { config }
    }

    /// The CPU solver never uses the GPU.
    pub fn should_use_gpu(&self, matrix_size: usize, batch_size: usize) -> (r: bool)
        ensures
            r == false,
    {
        let _ = matrix_size;
        let _ = batch_size;
        false
    }

    /// The backend type of this solver.
    pub fn backend_type(&self) -> (r: BackendType)
        ensures
            r == BackendType::Cpu,
    {
        BackendType::Cpu
    }

    /// The configuration.
    pub fn config(&self) -> (r: &GpuBatchConfig)
        ensures
            *r == self.spec_config(),
    {
        &self.config
    }
}

/// Accelerate-framework batched solver handle; the LAPACK calls run in the
/// numerical layer.
pub struct AccelerateBatchedSolver {
    config: GpuBatchConfig,
}

impl AccelerateBatchedSolver {
    /// The configuration the solver was created with.
    pub closed spec fn spec_config(&self) -> GpuBatchConfig {
        self.config
    }

    /// Create a new Accelerate batched solver.
    pub fn new(config: GpuBatchConfig) -> (r: Self)
        ensures
            r.spec_config() == config,
    {
        Self { config }
    }

    /// Accelerate is CPU-based and never uses the GPU.
    pub fn should_use_gpu(&self, matrix_size: usize, batch_size: usize) -> (r: bool)
        ensures
            r == false,
    {
        let _ = matrix_size;
        let _ = batch_size;
        false
    }

    /// The backend type of this solver.
    pub fn backend_type(&self) -> (r: BackendType)
        ensures
            r == BackendType::Accelerate,
    {
        BackendType::Accelerate
    }

    /// The configuration.
    pub fn config(&self) -> (r: &GpuBatchConfig)
        ensures
            *r == self.spec_config(),
    {
        &self.config
    }
}

/// CUDA-accelerated batched LU solver handle.
///
/// The CUDA driver bindings are not linked into this build, so construction
/// always reports an unavailable backend; the type keeps the CUDA path's
/// interface so that callers can probe for it uniformly.
pub struct CudaBatchedSolver {
    config: GpuBatchConfig,
}

impl CudaBatchedSolver {
    /// The configuration the solver was created with.
    pub closed spec fn spec_config(&self) -> GpuBatchConfig {
        self.config
    }

    /// Create a new CUDA batched solver.
    ///
    /// Reports an initialization error when no CUDA device can be reached.
    pub fn new(config: GpuBatchConfig) -> (r: Result<Self, BatchedSweepError>)
        ensures
            r is Err,
            r matches Err(e) ==> e is BackendInit,
    {
        let _ = config;
        Err(
            BatchedSweepError::BackendInit(
                "CUDA not available (driver bindings are not linked into this build)".to_owned(),
            ),
        )
    }

    /// Try to create a CUDA solver, returning `None` if unavailable.
    pub fn try_new(config: GpuBatchConfig) -> (r: Option<Self>)
        ensures
            r is None,
    {
        match Self::new(config) {
            Ok(s) => Some(s),
            Err(_) => None,
        }
    }

    /// The backend type of this solver.
    pub fn backend_type(&self) -> (r: BackendType)
        ensures
            r == BackendType::Cuda,
    {
        BackendType::Cuda
    }

    /// The configuration.
    pub fn config(&self) -> (r: &GpuBatchConfig)
        ensures
            *r == self.spec_config(),
    {
        &self.config
    }
}

/// Relies on `wgpu::Instance::enumerate_adapters`: reports whether any GPU
/// adapter is available to WebGPU.  The answer depends on the machine, so
/// nothing is promised of it.
#[verifier::external_body]
fn gpu_adapter_available() -> bool {
    let instance = wgpu::Instance::new(&wgpu::InstanceDescriptor::default());
    !instance.enumerate_adapters(wgpu::Backends::all()).is_empty()
}

/// Metal/WebGPU-accelerated batched LU solver handle; the compute-shader
/// dispatch runs in the numerical layer.
pub struct MetalBatchedSolver {
    config: GpuBatchConfig,
    #[allow(dead_code)]
    available: bool,
}

impl MetalBatchedSolver {
    /// The configuration the solver was created with.
    pub closed spec fn spec_config(&self) -> GpuBatchConfig {
        self.config
    }

    /// Create a new Metal batched solver.
    ///
    /// Reports an initialization error when no WebGPU adapter is available.
    pub fn new(config: GpuBatchConfig) -> (r: Result<Self, BatchedSweepError>)
        ensures
            r matches Ok(s) ==> s.spec_config() == config,
            r matches Err(e) ==> e is BackendInit,
    {
        let available = gpu_adapter_available();
        if !available {
            return Err(
                BatchedSweepError::BackendInit(
                    "Metal/WebGPU not available on this system".to_owned(),
                ),
            );
        }
        Ok(Self { config, available })
    }

    /// Try to create a Metal solver, returning `None` if unavailable.
    pub fn try_new(config: GpuBatchConfig) -> (r: Option<Self>)
        ensures
            r matches Some(s) ==> s.spec_config() == config,
    {
        match Self::new(config) {
            Ok(s) => Some(s),
            Err(_) => None,
        }
    }

    /// The backend type of this solver.
    pub fn backend_type(&self) -> (r: BackendType)
        ensures
            r == BackendType::Metal,
    {
        BackendType::Metal
    }

    /// The configuration.
    pub fn config(&self) -> (r: &GpuBatchConfig)
        ensures
            *r == self.spec_config(),
    {
        &self.config
    }
}

} // verus!
