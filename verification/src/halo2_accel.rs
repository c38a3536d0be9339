//! Acceleration decisions for Halo2 verifier batches: which batches are
//! acceleration candidates, when the CPU crosscheck runs, and which result a
//! batch accepts.
use crate::consensus_config::{
    spec_should_try_accel, Halo2AccelBackend, Halo2AccelConfig, Halo2AccelMode,
};
use vstd::prelude::*;

verus! {

/// What this build of the verifier supports.
#[derive(Clone, Copy, Debug, PartialEq, Eq, Structural)]
pub struct Halo2AccelBuild {
    /// The accelerated verifier path is compiled in.
    pub accel_verify: bool,
    /// Accepting accelerated results without a crosscheck is compiled in.
    pub experimental_accept: bool,
}

impl Halo2AccelBuild {
    /// The capabilities of this build: neither acceleration feature is compiled in.
    pub fn current() -> (r: Halo2AccelBuild)
        ensures
            !r.accel_verify,
            !r.experimental_accept,
    {
        Halo2AccelBuild { accel_verify: false, experimental_accept: false }
    }
}

/// Acceleration metadata accumulated for one Halo2 verifier batch.
#[derive(Clone, Copy, Debug, PartialEq, Eq, Structural)]
pub struct Halo2BatchAccelContext {
    /// Total Orchard actions observed.
    pub batch_actions: usize,
    /// Number of observed items that are acceleration candidates.
    pub candidate_items: usize,
    /// The configuration of the most recently observed item.
    pub config: Halo2AccelConfig,
}

impl Default for Halo2BatchAccelContext {
    fn default() -> (r: Halo2BatchAccelContext)
        ensures
            r.batch_actions == 0,
            r.candidate_items == 0,
            r.config == (Halo2AccelConfig {
                enabled: false,
                backend: Halo2AccelBackend::Auto,
                mode: Halo2AccelMode::Cpu,
                min_batch_actions: 64,
                min_msm_size: 4096,
            }),
    {
        Halo2BatchAccelContext {
            batch_actions: 0,
            candidate_items: 0,
            config: Halo2AccelConfig::default(),
        }
    }
}

/// Acceleration facade stats captured for one verifier batch.
#[derive(Clone, Copy, Debug, PartialEq, Eq, Structural)]
pub struct Halo2DispatchStats {
    /// MSM points forwarded to the acceleration backend.
    pub msm_candidate_points: u64,
    /// MSMs that fell back to the CPU.
    pub msm_fallbacks: u64,
}

impl Default for Halo2DispatchStats {
    fn default() -> (r: Halo2DispatchStats)
        ensures
            r.msm_candidate_points == 0,
            r.msm_fallbacks == 0,
    {
        Halo2DispatchStats { msm_candidate_points: 0, msm_fallbacks: 0 }
    }
}

/// Result metadata for one accelerated verifier batch attempt.
#[derive(Clone, Copy, Debug, PartialEq, Eq, Structural)]
pub struct Halo2VerifyOutcome {
    /// The result the batch accepts.
    pub accepted: bool,
    /// Whether the accelerated and CPU results differ.
    pub crosscheck_mismatch: bool,
    /// The accelerated result, if computed.
    pub accelerated_result: Option<bool>,
    /// The CPU result, if computed.
    pub cpu_result: Option<bool>,
    /// Dispatch stats of the batch.
    pub dispatch_stats: Halo2DispatchStats,
}

/// Whether the batch has any acceleration candidate.
pub open spec fn spec_has_accel_candidate(c: Halo2BatchAccelContext) -> bool {
    c.candidate_items > 0
}

/// Whether the requested accelerated backend passed its self test, for a
/// candidate batch in a build with the accelerated path.
pub open spec fn spec_backend_self_test_passed(
    c: Halo2BatchAccelContext,
    build: Halo2AccelBuild,
    self_test: bool,
) -> bool {
    build.accel_verify && spec_has_accel_candidate(c) && self_test
}

/// Whether accelerated results are accepted directly.
pub open spec fn spec_should_experimental_accept(
    c: Halo2BatchAccelContext,
    build: Halo2AccelBuild,
    self_test: bool,
) -> bool {
    spec_has_accel_candidate(c) && build.accel_verify && build.experimental_accept && c.config.mode
        == Halo2AccelMode::ExperimentalAccept && spec_backend_self_test_passed(c, build, self_test)
}

/// Whether the CPU crosscheck runs: for candidate batches in crosscheck mode,
/// and in experimental-accept mode whenever direct acceptance is not allowed.
pub open spec fn spec_should_crosscheck(
    c: Halo2BatchAccelContext,
    build: Halo2AccelBuild,
    self_test: bool,
) -> bool {
    spec_has_accel_candidate(c) && build.accel_verify && (c.config.mode
        == Halo2AccelMode::Crosscheck || (c.config.mode == Halo2AccelMode::ExperimentalAccept
        && !spec_should_experimental_accept(c, build, self_test)))
}

impl Halo2BatchAccelContext {
    /// Record one item of `action_count` actions observed under `config`.
    pub fn observe_actions(&mut self, action_count: usize, config: &Halo2AccelConfig)
        requires
            old(self).batch_actions + action_count <= usize::MAX,
            old(self).candidate_items < usize::MAX,
        ensures
            final(self).batch_actions == old(self).batch_actions + action_count,
            final(self).candidate_items == old(self).candidate_items + if spec_should_try_accel(
                *config,
                action_count,
            ) {
                1int
            } else {
                0int
            },
            final(self).config == *config,
    {
        self.batch_actions = self.batch_actions + action_count;
        if config.should_try_accel(action_count) {
            self.candidate_items = self.candidate_items + 1;
        }
        self.config = *config;
    }

    /// Record one item.
    pub fn observe_item(&mut self, item: &Item)
        requires
            old(self).batch_actions + item.action_count <= usize::MAX,
            old(self).candidate_items < usize::MAX,
        ensures
            final(self).batch_actions == old(self).batch_actions + item.action_count,
            final(self).candidate_items == old(self).candidate_items + if spec_should_try_accel(
                item.halo2_accel_config,
                item.action_count,
            ) {
                1int
            } else {
                0int
            },
            final(self).config == item.halo2_accel_config,
    {
        self.observe_actions(item.request_weight(), &item.halo2_accel_config);
    }

    /// Metric label: whether acceleration is enabled.
    pub fn enabled_label(&self) -> (r: &'static str)
        ensures
            r@ == if self.config.enabled {
                "true"@
            } else {
                "false"@
            },
    {
        if self.config.enabled {
            "true"
        } else {
            "false"
        }
    }

    /// Metric label: whether the batch has a candidate.
    pub fn candidate_label(&self) -> (r: &'static str)
        ensures
            r@ == if self.candidate_items > 0 {
                "true"@
            } else {
                "false"@
            },
    {
        if self.candidate_items > 0 {
            "true"
        } else {
            "false"
        }
    }

    /// Metric label: whether the accelerated path is compiled in.
    pub fn compiled_label(&self, build: Halo2AccelBuild) -> (r: &'static str)
        ensures
            r@ == if build.accel_verify {
                "true"@
            } else {
                "false"@
            },
    {
        if build.accel_verify {
            "true"
        } else {
            "false"
        }
    }

    /// Metric label: the configured backend.
    pub fn backend_label(&self) -> (r: &'static str)
        ensures
            r@ == match self.config.backend {
                Halo2AccelBackend::Auto => "auto"@,
                Halo2AccelBackend::Cuda => "cuda"@,
                Halo2AccelBackend::Avx512 => "avx512"@,
            },
    {
        self.config.backend.as_metric_label()
    }

    /// Metric label: the configured mode.
    pub fn mode_label(&self) -> (r: &'static str)
        ensures
            r@ == match self.config.mode {
                Halo2AccelMode::Cpu => "cpu"@,
                Halo2AccelMode::Crosscheck => "crosscheck"@,
                Halo2AccelMode::ExperimentalAccept => "experimental-accept"@,
            },
    {
        self.config.mode.as_metric_label()
    }

    /// Whether the batch has any acceleration candidate.
    pub fn has_accel_candidate(&self) -> (r: bool)
        ensures
            r == spec_has_accel_candidate(*self),
    {
        self.candidate_items > 0
    }

    /// Whether the CPU crosscheck runs for this batch; `self_test` is the
    /// result of the requested backend's self test.
    pub fn should_crosscheck(&self, build: Halo2AccelBuild, self_test: bool) -> (r: bool)
        ensures
            r == spec_should_crosscheck(*self, build, self_test),
    {
        self.has_accel_candidate() && build.accel_verify && (self.config.mode
            == Halo2AccelMode::Crosscheck || (self.config.mode == Halo2AccelMode::ExperimentalAccept
            && !self.should_experimental_accept(build, self_test)))
    }

    /// Whether accelerated results are accepted directly; `self_test` is the
    /// result of the requested backend's self test.
    pub fn should_experimental_accept(&self, build: Halo2AccelBuild, self_test: bool) -> (r: bool)
        ensures
            r == spec_should_experimental_accept(*self, build, self_test),
    {
        self.has_accel_candidate() && build.accel_verify && build.experimental_accept
            && self.config.mode == Halo2AccelMode::ExperimentalAccept
            && self.accelerated_backend_self_test_passed(build, self_test)
    }

    /// Whether the accelerated backend counts as self-tested for this batch.
    pub fn accelerated_backend_self_test_passed(&self, build: Halo2AccelBuild, self_test: bool) -> (r:
        bool)
        ensures
            r == spec_backend_self_test_passed(*self, build, self_test),
    {
        build.accel_verify && self.has_accel_candidate() && self_test
    }

    /// The outcome when only the accelerated path ran.
    pub fn resolve_result_without_crosscheck(&self, accelerated_result: bool) -> (r:
        Halo2VerifyOutcome)
        ensures
            r.accepted == accelerated_result,
            !r.crosscheck_mismatch,
            r.accelerated_result == Some(accelerated_result),
            r.cpu_result is None,
            r.dispatch_stats == (Halo2DispatchStats { msm_candidate_points: 0, msm_fallbacks: 0 }),
    {
        Halo2VerifyOutcome {
            accepted: accelerated_result,
            crosscheck_mismatch: false,
            accelerated_result: Some(accelerated_result),
            cpu_result: None,
            dispatch_stats: Halo2DispatchStats::default(),
        }
    }

    /// The outcome after both paths ran: the accelerated result when direct
    /// acceptance is allowed, else the CPU result.
    pub fn resolve_result_after_crosscheck(
        &self,
        accelerated_result: bool,
        cpu_result: bool,
        build: Halo2AccelBuild,
        self_test: bool,
    ) -> (r: Halo2VerifyOutcome)
        ensures
            r.accepted == if spec_should_experimental_accept(*self, build, self_test) {
                accelerated_result
            } else {
                cpu_result
            },
            r.crosscheck_mismatch == (accelerated_result != cpu_result),
            r.accelerated_result == Some(accelerated_result),
            r.cpu_result == Some(cpu_result),
            r.dispatch_stats == (Halo2DispatchStats { msm_candidate_points: 0, msm_fallbacks: 0 }),
    {
        let crosscheck_mismatch = accelerated_result != cpu_result;
        let accepted = if self.should_experimental_accept(build, self_test) {
            accelerated_result
        } else {
            cpu_result
        };
        Halo2VerifyOutcome {
            accepted,
            crosscheck_mismatch,
            accelerated_result: Some(accelerated_result),
            cpu_result: Some(cpu_result),
            dispatch_stats: Halo2DispatchStats::default(),
        }
    }
}

/// The backend the Pasta acceleration layer dispatches to.
#[derive(Clone, Copy, Debug, PartialEq, Eq, Structural)]
pub enum DispatchBackend {
    /// The CPU implementation.
    Cpu,
    /// The best available accelerated backend.
    Auto,
    /// CUDA.
    Cuda,
    /// AVX512 IFMA.
    Avx512,
}

/// How the Pasta acceleration layer dispatches multi-scalar multiplications.
#[derive(Clone, Copy, Debug, PartialEq, Eq, Structural)]
pub struct DispatchConfig {
    /// The backend used.
    pub backend: DispatchBackend,
    /// The smallest MSM sent to the backend.
    pub min_msm_size: usize,
}

/// The dispatch backend matching a configured acceleration backend.
pub open spec fn spec_requested_backend(b: Halo2AccelBackend) -> DispatchBackend {
    match b {
        Halo2AccelBackend::Auto => DispatchBackend::Auto,
        Halo2AccelBackend::Cuda => DispatchBackend::Cuda,
        Halo2AccelBackend::Avx512 => DispatchBackend::Avx512,
    }
}

impl Halo2BatchAccelContext {
    /// The dispatch backend matching the configured backend.
    pub fn requested_backend(&self) -> (r: DispatchBackend)
        ensures
            r == spec_requested_backend(self.config.backend),
    {
        match self.config.backend {
            Halo2AccelBackend::Auto => DispatchBackend::Auto,
            Halo2AccelBackend::Cuda => DispatchBackend::Cuda,
            Halo2AccelBackend::Avx512 => DispatchBackend::Avx512,
        }
    }

    /// The dispatch used for the accelerated pass: the requested backend for
    /// a candidate batch outside CPU mode, else the CPU.
    pub fn dispatch_config(&self) -> (r: DispatchConfig)
        ensures
            r.backend == if spec_has_accel_candidate(*self) && self.config.mode
                != Halo2AccelMode::Cpu {
                spec_requested_backend(self.config.backend)
            } else {
                DispatchBackend::Cpu
            },
            r.min_msm_size == self.config.min_msm_size,
    {
        let backend = if self.has_accel_candidate() && self.config.mode != Halo2AccelMode::Cpu {
            self.requested_backend()
        } else {
            DispatchBackend::Cpu
        };
        DispatchConfig { backend, min_msm_size: self.config.min_msm_size }
    }

    /// The dispatch used for the CPU crosscheck pass.
    pub fn cpu_dispatch_config(&self) -> (r: DispatchConfig)
        ensures
            r == (DispatchConfig {
                backend: DispatchBackend::Cpu,
                min_msm_size: self.config.min_msm_size,
            }),
    {
        DispatchConfig { backend: DispatchBackend::Cpu, min_msm_size: self.config.min_msm_size }
    }

    /// The outcome of verifying a batch pair: the accelerated pass always
    /// runs, the CPU pass exactly when the batch is crosschecked; the
    /// dispatch stats of the accelerated pass are attached.
    pub fn verify_batch_pair_outcome(
        &self,
        build: Halo2AccelBuild,
        self_test: bool,
        accelerated_result: bool,
        cpu_result: Option<bool>,
        dispatch_stats: Halo2DispatchStats,
    ) -> (r: Halo2VerifyOutcome)
        requires
            (cpu_result is Some) == spec_should_crosscheck(*self, build, self_test),
        ensures
            r.dispatch_stats == dispatch_stats,
            r.accelerated_result == Some(accelerated_result),
            r.cpu_result == cpu_result,
            r.accepted == match cpu_result {
                Some(cpu) => if spec_should_experimental_accept(*self, build, self_test) {
                    accelerated_result
                } else {
                    cpu
                },
                None => accelerated_result,
            },
            r.crosscheck_mismatch == match cpu_result {
                Some(cpu) => accelerated_result != cpu,
                None => false,
            },
    {
        let mut outcome = match cpu_result {
            Some(cpu) => self.resolve_result_after_crosscheck(
                accelerated_result,
                cpu,
                build,
                self_test,
            ),
            None => self.resolve_result_without_crosscheck(accelerated_result),
        };
        outcome.dispatch_stats = dispatch_stats;
        outcome
    }

    /// The crosscheck mismatch metric of an outcome: its label and the
    /// increment, recorded only when the CPU pass ran.
    pub fn crosscheck_metric(&self, outcome: &Halo2VerifyOutcome) -> (r: Option<(&'static str, u64)>)
        ensures
            match outcome.cpu_result {
                None => r is None,
                Some(_) => r matches Some((label, inc)) && label@ == (if outcome.crosscheck_mismatch {
                    "true"@
                } else {
                    "false"@
                }) && inc == (if outcome.crosscheck_mismatch {
                    1u64
                } else {
                    0u64
                }),
            },
    {
        if outcome.cpu_result.is_none() {
            return None;
        }
        if outcome.crosscheck_mismatch {
            Some(("true", 1))
        } else {
            Some(("false", 0))
        }
    }

    /// The dispatch metrics of a candidate batch: the MSM points forwarded
    /// and the CPU fallbacks, each recorded only when non-zero.
    pub fn dispatch_stats_metrics(&self, stats: Halo2DispatchStats) -> (r: (Option<u64>, Option<u64>))
        ensures
            r.0 == if spec_has_accel_candidate(*self) && stats.msm_candidate_points > 0 {
                Some(stats.msm_candidate_points)
            } else {
                None
            },
            r.1 == if spec_has_accel_candidate(*self) && stats.msm_fallbacks > 0 {
                Some(stats.msm_fallbacks)
            } else {
                None
            },
    {
        if !self.has_accel_candidate() {
            return (None, None);
        }
        let points = if stats.msm_candidate_points > 0 {
            Some(stats.msm_candidate_points)
        } else {
            None
        };
        let fallbacks = if stats.msm_fallbacks > 0 {
            Some(stats.msm_fallbacks)
        } else {
            None
        };
        (points, fallbacks)
    }
}

/// The result label of a batch flush: "success" when the batch was accepted.
pub fn flush_result_label(outcome: Option<Halo2VerifyOutcome>) -> (r: &'static str)
    ensures
        r@ == match outcome {
            Some(o) => if o.accepted {
                "success"@
            } else {
                "failure"@
            },
            None => "failure"@,
        },
{
    match outcome {
        Some(o) => if o.accepted {
            "success"
        } else {
            "failure"
        },
        None => "failure",
    }
}

impl Halo2BatchAccelContext {
    /// Hand over the context of the batch being flushed, starting a fresh one.
    pub fn take(&mut self) -> (r: Halo2BatchAccelContext)
        ensures
            r == *old(self),
            final(self).batch_actions == 0,
            final(self).candidate_items == 0,
            final(self).config == (Halo2AccelConfig {
                enabled: false,
                backend: Halo2AccelBackend::Auto,
                mode: Halo2AccelMode::Cpu,
                min_batch_actions: 64,
                min_msm_size: 4096,
            }),
    {
        let taken = *self;
        *self = Halo2BatchAccelContext::default();
        taken
    }
}

/// Why a queued Halo2 proof was not verified.
#[derive(Clone, Copy, Debug, PartialEq, Eq, Structural)]
pub enum Halo2ItemError {
    /// The batch result never arrived: its sender was dropped.
    ResultDropped,
    /// The batch containing the proof did not verify.
    InvalidProofs,
}

/// The result of a queued proof, given the broadcast batch verdict.
pub fn batch_item_result(batch_verdict: Option<bool>) -> (r: Result<(), Halo2ItemError>)
    ensures
        r == match batch_verdict {
            None => Err(Halo2ItemError::ResultDropped),
            Some(true) => Ok(()),
            Some(false) => Err(Halo2ItemError::InvalidProofs),
        },
{
    match batch_verdict {
        None => Err(Halo2ItemError::ResultDropped),
        Some(true) => Ok(()),
        Some(false) => Err(Halo2ItemError::InvalidProofs),
    }
}

/// Why Halo2 proof verification failed.
#[derive(Clone, Copy, Debug, PartialEq, Eq, Structural)]
pub enum Halo2Error {
    /// The constraint system is not satisfied.
    ConstraintSystemFailure,
    /// Any other Halo2 error.
    Other,
}

impl Halo2Error {
    /// The error for a proving-system failure: constraint-system failures keep
    /// their kind, every other failure is `Other`.
    pub fn from_plonk_failure(constraint_system_failure: bool) -> (r: Halo2Error)
        ensures
            r == if constraint_system_failure {
                Halo2Error::ConstraintSystemFailure
            } else {
                Halo2Error::Other
            },
    {
        if constraint_system_failure {
            Halo2Error::ConstraintSystemFailure
        } else {
            Halo2Error::Other
        }
    }
}

/// Batching-relevant part of a Halo2 verification item: its Orchard action
/// count and the acceleration configuration it was queued with.
#[derive(Clone, Copy, Debug, PartialEq, Eq, Structural)]
pub struct Item {
    /// Number of Orchard actions in the item's bundle.
    pub action_count: usize,
    /// Acceleration configuration of the item.
    pub halo2_accel_config: Halo2AccelConfig,
}

impl Item {
    /// An item with the default acceleration configuration.
    pub fn new(action_count: usize) -> (r: Item)
        ensures
            r.action_count == action_count,
            !r.halo2_accel_config.enabled,
            r.halo2_accel_config.mode == Halo2AccelMode::Cpu,
            r.halo2_accel_config.backend == Halo2AccelBackend::Auto,
            r.halo2_accel_config.min_batch_actions == 64,
            r.halo2_accel_config.min_msm_size == 4096,
    {
        Self::new_with_accel_config(action_count, Halo2AccelConfig::default())
    }

    /// An item with an acceleration configuration.
    pub fn new_with_accel_config(action_count: usize, halo2_accel_config: Halo2AccelConfig) -> (r:
        Item)
        ensures
            r.action_count == action_count,
            r.halo2_accel_config == halo2_accel_config,
    {
        Item { action_count, halo2_accel_config }
    }

    /// The batch weight of the item: its action count.
    pub fn request_weight(&self) -> (r: usize)
        ensures
            r == self.action_count,
    {
        self.action_count
    }
}

/// Replace an item's acceleration configuration.
pub fn clone_item_with_accel_config(item: &Item, halo2_accel_config: Halo2AccelConfig) -> (r: Item)
    ensures
        r.action_count == item.action_count,
        r.halo2_accel_config == halo2_accel_config,
{
    Item { action_count: item.action_count, halo2_accel_config }
}

/// Summary of the acceleration metadata derived from a batch of Halo2 items.
#[derive(Clone, Copy, Debug, PartialEq, Eq, Structural)]
pub struct BatchItemSummary {
    /// Total Orchard actions represented by the batch items.
    pub batch_actions: usize,
    /// Number of items that meet the acceleration candidate threshold.
    pub candidate_items: usize,
    /// Whether any item in the batch is an acceleration candidate.
    pub has_accel_candidate: bool,
    /// Whether the CPU crosscheck protection runs for this batch.
    pub should_crosscheck: bool,
    /// Whether this build and backend can accept accelerated results directly.
    pub should_experimental_accept: bool,
}

/// Total actions of the items.
pub open spec fn total_actions(items: Seq<Item>) -> int
    decreases items.len(),
{
    if items.len() == 0 {
        0
    } else {
        total_actions(items.drop_last()) + items.last().action_count
    }
}

/// Number of items that are acceleration candidates under their own configuration.
pub open spec fn candidate_count(items: Seq<Item>) -> int
    decreases items.len(),
{
    if items.len() == 0 {
        0
    } else {
        candidate_count(items.drop_last()) + if spec_should_try_accel(
            items.last().halo2_accel_config,
            items.last().action_count,
        ) {
            1int
        } else {
            0int
        }
    }
}

/// The context after observing the items in order.
pub open spec fn context_after(items: Seq<Item>) -> Halo2BatchAccelContext {
    Halo2BatchAccelContext {
        batch_actions: total_actions(items) as usize,
        candidate_items: candidate_count(items) as usize,
        config: if items.len() == 0 {
            Halo2AccelConfig {
                enabled: false,
                backend: Halo2AccelBackend::Auto,
                mode: Halo2AccelMode::Cpu,
                min_batch_actions: 64,
                min_msm_size: 4096,
            }
        } else {
            items.last().halo2_accel_config
        },
    }
}

proof fn lemma_candidate_count_bound(items: Seq<Item>)
    ensures
        0 <= candidate_count(items) <= items.len(),
    decreases items.len(),
{
    if items.len() > 0 {
        lemma_candidate_count_bound(items.drop_last());
    }
}

proof fn lemma_total_actions_monotone(items: Seq<Item>, i: int)
    requires
        0 <= i <= items.len(),
    ensures
        0 <= total_actions(items.subrange(0, i)) <= total_actions(items),
    decreases items.len() - i,
{
    if i < items.len() {
        lemma_total_actions_monotone(items, i + 1);
        assert(items.subrange(0, i + 1).drop_last() == items.subrange(0, i));
    } else {
        assert(items.subrange(0, i) == items);
    }
    lemma_total_actions_nonneg(items.subrange(0, i));
}

proof fn lemma_total_actions_nonneg(items: Seq<Item>)
    ensures
        total_actions(items) >= 0,
    decreases items.len(),
{
    if items.len() > 0 {
        lemma_total_actions_nonneg(items.drop_last());
    }
}

/// Summarize the batch acceleration decisions derived from the items, observed
/// in order; `self_test` is the result of the requested backend's self test.
pub fn summarize_batch_items(items: &[Item], build: Halo2AccelBuild, self_test: bool) -> (r:
    BatchItemSummary)
    requires
        total_actions(items@) <= usize::MAX,
    ensures
        r.batch_actions == total_actions(items@),
        r.candidate_items == candidate_count(items@),
        r.has_accel_candidate == spec_has_accel_candidate(context_after(items@)),
        r.should_crosscheck == spec_should_crosscheck(context_after(items@), build, self_test),
        r.should_experimental_accept == spec_should_experimental_accept(
            context_after(items@),
            build,
            self_test,
        ),
{
    let mut context = Halo2BatchAccelContext::default();
    let mut i: usize = 0;
    while i < items.len()
        invariant
            0 <= i <= items@.len(),
            total_actions(items@) <= usize::MAX,
            context == context_after(items@.subrange(0, i as int)),
            total_actions(items@.subrange(0, i as int)) == context.batch_actions,
            candidate_count(items@.subrange(0, i as int)) == context.candidate_items,
        decreases items@.len() - i,
    {
        proof {
            let next = items@.subrange(0, i + 1);
            assert(next.drop_last() == items@.subrange(0, i as int));
            assert(next.last() == items@[i as int]);
            lemma_total_actions_monotone(items@, i + 1);
            lemma_candidate_count_bound(items@.subrange(0, i as int));
            lemma_total_actions_nonneg(items@.subrange(0, i as int));
        }
        context.observe_item(&items[i]);
        i = i + 1;
    }
    proof {
        assert(items@.subrange(0, items@.len() as int) == items@);
    }
    BatchItemSummary {
        batch_actions: context.batch_actions,
        candidate_items: context.candidate_items,
        has_accel_candidate: context.has_accel_candidate(),
        should_crosscheck: context.should_crosscheck(build, self_test),
        should_experimental_accept: context.should_experimental_accept(build, self_test),
    }
}

/// Batch summaries keep their promises: candidates are counted among the
/// items, no candidate is possible when every item has acceleration disabled
/// or in CPU mode, a batch without candidates neither crosschecks nor accepts
/// directly, and direct acceptance happens only in experimental-accept mode.
pub proof fn lemma_batch_summary_laws(items: Seq<Item>, build: Halo2AccelBuild, self_test: bool)
    ensures
        0 <= candidate_count(items) <= items.len(),
        (forall|i: int|
            0 <= i < items.len() ==> !(#[trigger] items[i]).halo2_accel_config.enabled
                || items[i].halo2_accel_config.mode == Halo2AccelMode::Cpu) ==> candidate_count(items)
            == 0,
        !spec_has_accel_candidate(context_after(items)) ==> !spec_should_crosscheck(
            context_after(items),
            build,
            self_test,
        ) && !spec_should_experimental_accept(context_after(items), build, self_test),
        spec_should_experimental_accept(context_after(items), build, self_test) ==> context_after(
            items,
        ).config.mode == Halo2AccelMode::ExperimentalAccept,
        spec_should_experimental_accept(context_after(items), build, self_test)
            ==> !spec_should_crosscheck(context_after(items), build, self_test),
    decreases items.len(),
{
    lemma_candidate_count_bound(items);
    if items.len() > 0 {
        lemma_batch_summary_laws(items.drop_last(), build, self_test);
        let init = items.drop_last();
        if forall|i: int|
            0 <= i < items.len() ==> !(#[trigger] items[i]).halo2_accel_config.enabled
                || items[i].halo2_accel_config.mode == Halo2AccelMode::Cpu {
            assert forall|i: int| 0 <= i < init.len() implies !(
            #[trigger] init[i]).halo2_accel_config.enabled || init[i].halo2_accel_config.mode
                == Halo2AccelMode::Cpu by {
                assert(init[i] == items[i]);
            }
            assert(items[items.len() - 1] == items.last());
        }
    }
}

/// The fuzzing byte at `index`, or zero past the end.
pub fn byte_at(data: &[u8], index: usize) -> (r: u8)
    ensures
        r == if index < data@.len() {
            data@[index as int]
        } else {
            0u8
        },
{
    if index < data.len() {
        data[index]
    } else {
        0
    }
}

/// An acceleration configuration derived from fuzzing bytes.
pub fn accel_config_from_bytes(data: &[u8]) -> (r: Halo2AccelConfig)
    ensures
        ({
            let b = |i: int| if i < data@.len() {
                data@[i]
            } else {
                0u8
            };
            &&& r.enabled == (b(1) & 1 == 1)
            &&& r.backend == if b(2) % 3 == 0 {
                Halo2AccelBackend::Auto
            } else if b(2) % 3 == 1 {
                Halo2AccelBackend::Cuda
            } else {
                Halo2AccelBackend::Avx512
            }
            &&& r.mode == if b(3) % 3 == 0 {
                Halo2AccelMode::Cpu
            } else if b(3) % 3 == 1 {
                Halo2AccelMode::Crosscheck
            } else {
                Halo2AccelMode::ExperimentalAccept
            }
            &&& r.min_batch_actions == b(4) % 16
            &&& r.min_msm_size == vstd::arithmetic::power2::pow2((b(5) % 16) as nat)
        }),
{
    let shift = (byte_at(data, 5) % 16) as usize;
    let mut size: usize = 1;
    let mut k: usize = 0;
    proof {
        vstd::arithmetic::power2::lemma2_to64();
    }
    while k < shift
        invariant
            0 <= k <= shift <= 15,
            size == vstd::arithmetic::power2::pow2(k as nat),
        decreases shift - k,
    {
        proof {
            vstd::arithmetic::power2::lemma_pow2_adds(k as nat, 1);
            vstd::arithmetic::power2::lemma2_to64();
            vstd::arithmetic::power2::lemma_pow2_strictly_increases(k as nat, 15);
        }
        size = size * 2;
        k = k + 1;
    }
    Halo2AccelConfig {
        enabled: byte_at(data, 1) & 1 == 1,
        backend: match byte_at(data, 2) % 3 {
            0 => Halo2AccelBackend::Auto,
            1 => Halo2AccelBackend::Cuda,
            _ => Halo2AccelBackend::Avx512,
        },
        mode: match byte_at(data, 3) % 3 {
            0 => Halo2AccelMode::Cpu,
            1 => Halo2AccelMode::Crosscheck,
            _ => Halo2AccelMode::ExperimentalAccept,
        },
        min_batch_actions: (byte_at(data, 4) % 16) as usize,
        min_msm_size: size,
    }
}

} // verus!
