//! Configuration for semantic verification, including the experimental
//! Halo2 verifier acceleration settings.
use vstd::prelude::*;

verus! {

/// Backend selection for experimental Halo2 verifier acceleration.
#[derive(Clone, Copy, Debug, PartialEq, Eq, Structural)]
pub enum Halo2AccelBackend {
    /// Choose the best available backend at runtime.
    Auto,
    /// Use CUDA acceleration when available.
    Cuda,
    /// Use AVX512 IFMA acceleration when available.
    Avx512,
}

/// Runtime safety mode for experimental Halo2 verifier acceleration.
#[derive(Clone, Copy, Debug, PartialEq, Eq, Structural)]
pub enum Halo2AccelMode {
    /// Keep the current CPU verifier behavior only.
    Cpu,
    /// Run accelerated and CPU paths and require matching results before accepting.
    Crosscheck,
    /// Accept accelerated results directly.
    ExperimentalAccept,
}

impl Default for Halo2AccelBackend {
    fn default() -> (r: Halo2AccelBackend)
        ensures
            r == Halo2AccelBackend::Auto,
    {
        Halo2AccelBackend::Auto
    }
}

impl Default for Halo2AccelMode {
    fn default() -> (r: Halo2AccelMode)
        ensures
            r == Halo2AccelMode::Cpu,
    {
        Halo2AccelMode::Cpu
    }
}

/// Experimental Halo2 verifier acceleration settings.
#[derive(Clone, Copy, Debug, PartialEq, Eq, Structural)]
pub struct Halo2AccelConfig {
    /// Enable experimental Halo2 verifier acceleration.
    pub enabled: bool,
    /// Backend selection for accelerated Pasta operations.
    pub backend: Halo2AccelBackend,
    /// Safety mode used when comparing accelerated and CPU verification paths.
    pub mode: Halo2AccelMode,
    /// Minimum Orchard action batch size before trying acceleration.
    pub min_batch_actions: usize,
    /// Minimum MSM size forwarded to the Pasta acceleration backend.
    pub min_msm_size: usize,
}

impl Default for Halo2AccelConfig {
    fn default() -> (r: Halo2AccelConfig)
        ensures
            !r.enabled,
            r.backend == Halo2AccelBackend::Auto,
            r.mode == Halo2AccelMode::Cpu,
            r.min_batch_actions == 64,
            r.min_msm_size == 4096,
    {
        Halo2AccelConfig {
            enabled: false,
            backend: Halo2AccelBackend::Auto,
            mode: Halo2AccelMode::Cpu,
            min_batch_actions: 64,
            min_msm_size: 4096,
        }
    }
}

/// Whether an Orchard action batch of this size should be considered for
/// acceleration under `config`.
pub open spec fn spec_should_try_accel(config: Halo2AccelConfig, action_count: usize) -> bool {
    config.enabled && config.mode != Halo2AccelMode::Cpu && action_count >= config.min_batch_actions
}

impl Halo2AccelConfig {
    /// Returns true when a Halo2 Orchard action batch should be considered for acceleration.
    pub fn should_try_accel(&self, action_count: usize) -> (r: bool)
        ensures
            r == spec_should_try_accel(*self, action_count),
    {
        self.enabled && self.mode != Halo2AccelMode::Cpu && action_count >= self.min_batch_actions
    }
}

impl Halo2AccelBackend {
    /// Stable label for metrics and traces.
    pub fn as_metric_label(&self) -> (r: &'static str)
        ensures
            r@ == match *self {
                Halo2AccelBackend::Auto => "auto"@,
                Halo2AccelBackend::Cuda => "cuda"@,
                Halo2AccelBackend::Avx512 => "avx512"@,
            },
    {
        match self {
            Halo2AccelBackend::Auto => "auto",
            Halo2AccelBackend::Cuda => "cuda",
            Halo2AccelBackend::Avx512 => "avx512",
        }
    }
}

impl Halo2AccelMode {
    /// Stable label for metrics and traces.
    pub fn as_metric_label(&self) -> (r: &'static str)
        ensures
            r@ == match *self {
                Halo2AccelMode::Cpu => "cpu"@,
                Halo2AccelMode::Crosscheck => "crosscheck"@,
                Halo2AccelMode::ExperimentalAccept => "experimental-accept"@,
            },
    {
        match self {
            Halo2AccelMode::Cpu => "cpu",
            Halo2AccelMode::Crosscheck => "crosscheck",
            Halo2AccelMode::ExperimentalAccept => "experimental-accept",
        }
    }
}

/// Configuration for parallel semantic verification.
#[derive(Clone, Copy, Debug, PartialEq, Eq, Structural)]
pub struct Config {
    /// Should Zebra make sure that it follows the consensus chain while syncing?
    pub checkpoint_sync: bool,
    /// Experimental Halo2 verification acceleration settings.
    pub halo2_accel: Halo2AccelConfig,
}

/// Inner consensus configuration, accepting the fields of older configuration
/// files that have since been removed.
#[derive(Clone, Copy, Debug, PartialEq, Eq, Structural)]
pub struct InnerConfig {
    /// See [`Config`].
    pub checkpoint_sync: bool,
    /// See [`Config`].
    pub halo2_accel: Halo2AccelConfig,
    /// Unused field kept for backwards compatibility.
    pub _debug_skip_parameter_preload: bool,
}

impl Default for Config {
    fn default() -> (r: Config)
        ensures
            r.checkpoint_sync,
            !r.halo2_accel.enabled,
            r.halo2_accel.backend == Halo2AccelBackend::Auto,
            r.halo2_accel.mode == Halo2AccelMode::Cpu,
            r.halo2_accel.min_batch_actions == 64,
            r.halo2_accel.min_msm_size == 4096,
    {
        Config { checkpoint_sync: true, halo2_accel: Halo2AccelConfig::default() }
    }
}

impl Default for InnerConfig {
    fn default() -> (r: InnerConfig)
        ensures
            r.checkpoint_sync,
            !r.halo2_accel.enabled,
            r.halo2_accel.backend == Halo2AccelBackend::Auto,
            r.halo2_accel.mode == Halo2AccelMode::Cpu,
            r.halo2_accel.min_batch_actions == 64,
            r.halo2_accel.min_msm_size == 4096,
            !r._debug_skip_parameter_preload,
    {
        let defaults = Config::default();
        InnerConfig {
            checkpoint_sync: defaults.checkpoint_sync,
            halo2_accel: defaults.halo2_accel,
            _debug_skip_parameter_preload: false,
        }
    }
}

impl From<InnerConfig> for Config {
    fn from(inner: InnerConfig) -> (r: Config) {
        Config { checkpoint_sync: inner.checkpoint_sync, halo2_accel: inner.halo2_accel }
    }
}

impl vstd::std_specs::convert::FromSpecImpl<InnerConfig> for Config {
    open spec fn obeys_from_spec() -> bool {
        true
    }

    open spec fn from_spec(inner: InnerConfig) -> Config {
        Config { checkpoint_sync: inner.checkpoint_sync, halo2_accel: inner.halo2_accel }
    }
}

impl From<Config> for InnerConfig {
    fn from(config: Config) -> (r: InnerConfig) {
        InnerConfig {
            checkpoint_sync: config.checkpoint_sync,
            halo2_accel: config.halo2_accel,
            _debug_skip_parameter_preload: false,
        }
    }
}

impl vstd::std_specs::convert::FromSpecImpl<Config> for InnerConfig {
    open spec fn obeys_from_spec() -> bool {
        true
    }

    open spec fn from_spec(config: Config) -> InnerConfig {
        InnerConfig {
            checkpoint_sync: config.checkpoint_sync,
            halo2_accel: config.halo2_accel,
            _debug_skip_parameter_preload: false,
        }
    }
}

/// Converting a configuration to its inner form and back gives the configuration.
pub proof fn lemma_config_inner_roundtrip(config: Config)
    ensures
        <Config as vstd::std_specs::convert::FromSpec<InnerConfig>>::from_spec(
            <InnerConfig as vstd::std_specs::convert::FromSpec<Config>>::from_spec(config),
        ) == config,
{
}

} // verus!
