//! Solver dispatch configuration.
//!
//! A single decision object selects the compute backend (CPU, CUDA, Metal)
//! and the solver strategy (direct LU, iterative GMRES, or automatic by
//! system size), with size thresholds for every decision.  The iterative
//! solver's own tolerances travel with the numerical layer.

use vstd::prelude::*;
use vstd::string::StrSliceExecFns;
use vstd::string::StringExecFns;

verus! {

/// Configuration for GPU batched sweep operations.
#[derive(Debug, Clone)]
pub struct GpuBatchConfig {
    /// Minimum batch size to use the GPU (below this, the CPU is used).
    pub min_batch_size: usize,
    /// Minimum matrix dimension to use the GPU.
    pub min_matrix_size: usize,
    /// Maximum batch size per GPU launch.
    pub max_batch_per_launch: usize,
}

impl GpuBatchConfig {
    /// The default thresholds as a value usable in contracts.
    pub open spec fn spec_default() -> GpuBatchConfig {
        GpuBatchConfig { min_batch_size: 16, min_matrix_size: 32, max_batch_per_launch: 65535 }
    }
}

impl Default for GpuBatchConfig {
    fn default() -> (r: Self)
        ensures
            r == GpuBatchConfig::spec_default(),
    {
        Self { min_batch_size: 16, min_matrix_size: 32, max_batch_per_launch: 65535 }
    }
}

/// The compute backend a solve runs on.
#[derive(Debug, Clone)]
pub enum ComputeBackend {
    /// Plain CPU execution.
    Cpu,
    /// An NVIDIA GPU, by device index.
    Cuda { device_id: usize },
    /// An Apple GPU reached through Metal, by adapter name.
    Metal { adapter_name: String },
}

impl ComputeBackend {
    /// The backend's display name.
    pub open spec fn spec_name(&self) -> Seq<char> {
        match self {
            ComputeBackend::Cpu => "CPU"@,
            ComputeBackend::Cuda { .. } => "CUDA"@,
            ComputeBackend::Metal { .. } => "Metal"@,
        }
    }

    /// The backend's display name.
    pub fn name(&self) -> (r: &'static str)
        ensures
            r@ == self.spec_name(),
    {
        match self {
            ComputeBackend::Cpu => "CPU",
            ComputeBackend::Cuda { .. } => "CUDA",
            ComputeBackend::Metal { .. } => "Metal",
        }
    }
}

impl PartialEq for ComputeBackend {
    fn eq(&self, other: &Self) -> (r: bool) {
        match (self, other) {
            (ComputeBackend::Cpu, ComputeBackend::Cpu) => true,
            (
                ComputeBackend::Cuda { device_id: a },
                ComputeBackend::Cuda { device_id: b },
            ) => a == b,
            (
                ComputeBackend::Metal { adapter_name: a },
                ComputeBackend::Metal { adapter_name: b },
            ) => a.eq(b),
            _ => false,
        }
    }
}

impl vstd::std_specs::cmp::PartialEqSpecImpl for ComputeBackend {
    open spec fn obeys_eq_spec() -> bool {
        true
    }

    open spec fn eq_spec(&self, other: &Self) -> bool {
        match (self, other) {
            (ComputeBackend::Cpu, ComputeBackend::Cpu) => true,
            (
                ComputeBackend::Cuda { device_id: a },
                ComputeBackend::Cuda { device_id: b },
            ) => a == b,
            (
                ComputeBackend::Metal { adapter_name: a },
                ComputeBackend::Metal { adapter_name: b },
            ) => a@ == b@,
            _ => false,
        }
    }
}

/// Solver strategy for dispatch decisions.
#[derive(Debug, Clone, Copy, PartialEq, Eq, Structural, Default)]
#[non_exhaustive]
pub enum SolverDispatchStrategy {
    /// Automatically select based on system size.
    #[default]
    Auto,
    /// Always use direct LU factorization.
    DirectLU,
    /// Always use iterative GMRES.
    IterativeGmres,
}

/// The character with upper-case ASCII letters folded to lower case.
pub open spec fn lower_char(c: char) -> char {
    if 'A' as u32 <= c as u32 && c as u32 <= 'Z' as u32 {
        (((c as u32) + 32) as u32) as char
    } else {
        c
    }
}

/// The sequence with upper-case ASCII letters folded to lower case.
pub open spec fn lower_chars(s: Seq<char>) -> Seq<char> {
    s.map_values(|c: char| lower_char(c))
}

/// Fold one character to lower case.
fn to_lower_char(c: char) -> (r: char)
    ensures
        r == lower_char(c),
{
    let u = c as u32;
    if 'A' as u32 <= u && u <= 'Z' as u32 {
        let l = u + 32;
        proof {
            assert(l as u32 == l);
        }
        char_from_code(l)
    } else {
        c
    }
}

/// Relies on `char::from_u32`: a code point below the surrogate range is its
/// own scalar value.
#[verifier::external_body]
fn char_from_code(u: u32) -> (r: char)
    requires
        u < 0xD800,
    ensures
        r as u32 == u,
{
    char::from_u32(u).unwrap()
}

/// True when `s`, folded to lower case, spells exactly `kw`.
fn matches_lower(s: &str, kw: &str) -> (r: bool)
    ensures
        r == (lower_chars(s@) =~= kw@),
{
    let n = s.unicode_len();
    if n != kw.unicode_len() {
        return false;
    }
    let mut i: usize = 0;
    while i < n
        invariant
            i <= n,
            n == s@.len(),
            n == kw@.len(),
            forall|j: int| 0 <= j < i ==> lower_char(s@[j]) == kw@[j],
        decreases n - i,
    {
        let c = to_lower_char(s.get_char(i));
        if c != kw.get_char(i) {
            return false;
        }
        i = i + 1;
    }
    proof {
        assert(lower_chars(s@) =~= kw@);
    }
    true
}

impl SolverDispatchStrategy {
    /// Parse a strategy from its name, ignoring ASCII case: `auto`; `lu`,
    /// `direct` or `directlu`; `gmres` or `iterative`.
    pub fn from_name(name: &str) -> (r: Option<Self>)
        ensures
            (r == Some(SolverDispatchStrategy::Auto)) <==> lower_chars(name@) =~= "auto"@,
            (r == Some(SolverDispatchStrategy::DirectLU)) <==> (lower_chars(name@) =~= "lu"@
                || lower_chars(name@) =~= "direct"@ || lower_chars(name@) =~= "directlu"@),
            (r == Some(SolverDispatchStrategy::IterativeGmres)) <==> (lower_chars(name@)
                =~= "gmres"@ || lower_chars(name@) =~= "iterative"@),
            (r is None) <==> !(lower_chars(name@) =~= "auto"@ || lower_chars(name@) =~= "lu"@
                || lower_chars(name@) =~= "direct"@ || lower_chars(name@) =~= "directlu"@
                || lower_chars(name@) =~= "gmres"@ || lower_chars(name@) =~= "iterative"@),
    {
        proof {
            reveal_strlit("auto");
            reveal_strlit("lu");
            reveal_strlit("direct");
            reveal_strlit("directlu");
            reveal_strlit("gmres");
            reveal_strlit("iterative");
        }
        if matches_lower(name, "auto") {
            Some(SolverDispatchStrategy::Auto)
        } else if matches_lower(name, "lu") || matches_lower(name, "direct") || matches_lower(
            name,
            "directlu",
        ) {
            Some(SolverDispatchStrategy::DirectLU)
        } else if matches_lower(name, "gmres") || matches_lower(name, "iterative") {
            Some(SolverDispatchStrategy::IterativeGmres)
        } else {
            None
        }
    }
}

/// Solver dispatch configuration.
///
/// Controls how the solver selects between backends and algorithms based on
/// system size and available hardware.
#[derive(Debug, Clone)]
pub struct DispatchConfig {
    /// Compute backend to use.
    pub backend: ComputeBackend,
    /// Solver strategy selection.
    pub strategy: SolverDispatchStrategy,
    /// Size threshold below which the CPU is always used (even if a GPU is
    /// available).
    pub cpu_threshold: usize,
    /// Size threshold above which GMRES is preferred over direct LU.
    pub gmres_threshold: usize,
    /// GPU batch configuration for sweep operations.
    pub gpu_batch_config: GpuBatchConfig,
}

impl DispatchConfig {
    /// The default dispatch choices: CPU, automatic strategy, direct LU
    /// below ten thousand unknowns.
    pub open spec fn spec_default() -> DispatchConfig {
        DispatchConfig {
            backend: ComputeBackend::Cpu,
            strategy: SolverDispatchStrategy::Auto,
            cpu_threshold: 1000,
            gmres_threshold: 10000,
            gpu_batch_config: GpuBatchConfig::spec_default(),
        }
    }
}

impl Default for DispatchConfig {
    fn default() -> (r: Self)
        ensures
            r == DispatchConfig::spec_default(),
    {
        Self {
            backend: ComputeBackend::Cpu,
            strategy: SolverDispatchStrategy::Auto,
            cpu_threshold: 1000,
            gmres_threshold: 10000,
            gpu_batch_config: GpuBatchConfig::default(),
        }
    }
}

impl DispatchConfig {
    /// Create a CPU-only configuration.
    pub fn cpu() -> (r: Self)
        ensures
            r == DispatchConfig::spec_default(),
    {
        Self::default()
    }

    /// Create a configuration with the CUDA backend.
    pub fn cuda(device_id: usize) -> (r: Self)
        ensures
            r == (DispatchConfig { backend: ComputeBackend::Cuda { device_id }, ..DispatchConfig::spec_default() }),
    {
        Self { backend: ComputeBackend::Cuda { device_id }, ..Default::default() }
    }

    /// Create a configuration with the Metal backend.
    pub fn metal(adapter_name: String) -> (r: Self)
        ensures
            r.backend matches ComputeBackend::Metal { adapter_name: a } && a@ == adapter_name@,
            r.strategy == SolverDispatchStrategy::Auto,
            r.cpu_threshold == 1000,
            r.gmres_threshold == 10000,
            r.gpu_batch_config == GpuBatchConfig::spec_default(),
    {
        Self { backend: ComputeBackend::Metal { adapter_name }, ..Default::default() }
    }

    /// Set the solver strategy.
    pub fn with_strategy(self, strategy: SolverDispatchStrategy) -> (r: Self)
        ensures
            r == (DispatchConfig { strategy, ..self }),
    {
        Self { strategy, ..self }
    }

    /// Set the CPU threshold.
    pub fn with_cpu_threshold(self, threshold: usize) -> (r: Self)
        ensures
            r == (DispatchConfig { cpu_threshold: threshold, ..self }),
    {
        Self { cpu_threshold: threshold, ..self }
    }

    /// Set the GMRES threshold.
    pub fn with_gmres_threshold(self, threshold: usize) -> (r: Self)
        ensures
            r == (DispatchConfig { gmres_threshold: threshold, ..self }),
    {
        Self { gmres_threshold: threshold, ..self }
    }

    /// Decide whether to use the GPU for a given system size: a GPU backend
    /// must be configured and the system must be at least the CPU threshold.
    pub fn use_gpu(&self, size: usize) -> (r: bool)
        ensures
            r == (size >= self.cpu_threshold && !(self.backend is Cpu)),
    {
        if size < self.cpu_threshold {
            return false;
        }
        !matches!(self.backend, ComputeBackend::Cpu)
    }

    /// Decide whether to use GMRES for a given system size: forced by the
    /// strategy, or chosen automatically once the system reaches the GMRES
    /// threshold.
    pub fn use_gmres(&self, size: usize) -> (r: bool)
        ensures
            r == match self.strategy {
                SolverDispatchStrategy::DirectLU => false,
                SolverDispatchStrategy::IterativeGmres => true,
                SolverDispatchStrategy::Auto => size >= self.gmres_threshold,
            },
    {
        match self.strategy {
            SolverDispatchStrategy::DirectLU => false,
            SolverDispatchStrategy::IterativeGmres => true,
            SolverDispatchStrategy::Auto => size >= self.gmres_threshold,
        }
    }

    /// Decide whether to use the GPU for batched sweep operations: a GPU
    /// backend must be configured, and both the matrix size and the batch
    /// size must reach their thresholds.
    pub fn use_gpu_batch(&self, matrix_size: usize, batch_size: usize) -> (r: bool)
        ensures
            r == (!(self.backend is Cpu) && matrix_size >= self.gpu_batch_config.min_matrix_size
                && batch_size >= self.gpu_batch_config.min_batch_size),
    {
        if matches!(self.backend, ComputeBackend::Cpu) {
            return false;
        }
        matrix_size >= self.gpu_batch_config.min_matrix_size && batch_size
            >= self.gpu_batch_config.min_batch_size
    }

    /// Get the GPU batch configuration.
    pub fn gpu_batch_config(&self) -> (r: &GpuBatchConfig)
        ensures
            *r == self.gpu_batch_config,
    {
        &self.gpu_batch_config
    }

    /// Set the GPU batch configuration.
    pub fn with_gpu_batch_config(self, config: GpuBatchConfig) -> (r: Self)
        ensures
            r == (DispatchConfig { gpu_batch_config: config, ..self }),
    {
        Self { gpu_batch_config: config, ..self }
    }

    /// The dispatch decision for a size, in words.
    pub open spec fn spec_describe(&self, size: usize) -> Seq<char> {
        (if self.use_gmres_spec(size) {
            "GMRES"@
        } else {
            "Direct LU"@
        }) + " with "@ + (if size >= self.cpu_threshold && !(self.backend is Cpu) {
            self.backend.spec_name()
        } else {
            "CPU"@
        })
    }

    /// The GMRES decision as a spec-level predicate.
    pub open spec fn use_gmres_spec(&self, size: usize) -> bool {
        match self.strategy {
            SolverDispatchStrategy::DirectLU => false,
            SolverDispatchStrategy::IterativeGmres => true,
            SolverDispatchStrategy::Auto => size >= self.gmres_threshold,
        }
    }

    /// Get a human-readable description of the dispatch decision for a size.
    pub fn describe(&self, size: usize) -> (r: String)
        ensures
            r@ == self.spec_describe(size),
    {
        let solver = if self.use_gmres(size) {
            "GMRES"
        } else {
            "Direct LU"
        };
        let backend = if self.use_gpu(size) {
            self.backend.name()
        } else {
            "CPU"
        };
        let mut out = solver.to_owned();
        out.append(" with ");
        out.append(backend);
        out
    }
}

} // verus!
