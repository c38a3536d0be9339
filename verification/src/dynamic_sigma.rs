//! Dynamic sigma controller.
//!
//! Pure selection logic: it turns a telemetry window into a confirmation depth
//! (sigma) on the configured ladder `base_sigma < raised_sigma < max_sigma`,
//! taking the most conservative of four independent floors.
use vstd::arithmetic::div_mod::{
    lemma_fundamental_div_mod, lemma_hoist_over_denominator, lemma_mod_multiples_vanish,
    lemma_mod_self_0, lemma_small_mod,
};
use vstd::prelude::*;

verus! {

/// Parts-per-million denominator used by rollback risk estimates.
pub const PPM_DENOMINATOR: u128 = 1_000_000;

/// Controller parameters shared by validators for a dynamic-sigma variant.
#[derive(Clone, Copy, Debug, PartialEq, Eq, Structural)]
pub struct DynamicSigmaParameters {
    /// Baseline confirmation depth.
    pub base_sigma: u64,
    /// Raised confirmation depth used for degraded but recoverable conditions.
    pub raised_sigma: u64,
    /// Maximum confirmation depth used for critical or unreachable conditions.
    pub max_sigma: u64,
    /// Target Crosslink-participating hash-work percentage.
    pub target_hash_participation_pct: u8,
    /// Critical Crosslink-participating hash-work percentage.
    pub critical_hash_participation_pct: u8,
    /// Maximum acceptable rollback probability in parts per million.
    pub max_acceptable_rollback_risk_ppm: u64,
    /// Weight applied to estimated coverage risk percentage.
    pub coverage_risk_weight: u64,
    /// Weight applied to estimated Tenderlink round failure rate.
    pub round_failure_risk_weight: u64,
    /// Weight applied to measured block interval variance.
    pub block_interval_variance_risk_weight: u64,
    /// Weight applied to observed rollback depth.
    pub reorg_depth_risk_weight: u64,
    /// Risk score threshold for `raised_sigma`.
    pub risk_score_raised_threshold: u64,
    /// Risk score threshold for `max_sigma`.
    pub risk_score_max_threshold: u64,
}

/// Rollback-risk estimates for the configured sigma ladder.
#[derive(Clone, Copy, Debug, PartialEq, Eq, Structural)]
pub struct RollbackRiskCurve {
    /// Risk at `base_sigma`.
    pub base_sigma_ppm: u64,
    /// Risk at `raised_sigma`.
    pub raised_sigma_ppm: u64,
    /// Risk at `max_sigma`.
    pub max_sigma_ppm: u64,
}

/// A telemetry window that can be checked before selecting dynamic sigma.
#[derive(Clone, Copy, Debug, PartialEq, Eq, Structural)]
pub struct DynamicSigmaTelemetryWindow {
    /// Total observed PoW work over the measurement window.
    pub total_hash_work: u128,
    /// Observed PoW work with objectively verifiable Crosslink participation.
    pub crosslink_participating_hash_work: u128,
    /// Tenderlink rounds observed in the measurement window.
    pub total_tenderlink_rounds: u64,
    /// Tenderlink rounds that failed to decide and required recovery.
    pub failed_tenderlink_rounds: u64,
    /// Conservative upper bound on non-participating or unseen work.
    pub estimated_coverage_risk_pct: u8,
    /// Conservative upper bound on failed Tenderlink rounds.
    pub estimated_round_failure_rate_pct: u8,
    /// Measured PoW timing variance percentage.
    pub measured_block_interval_variance_pct: u8,
    /// Maximum observed rollback depth in the window.
    pub measured_observed_reorg_depth: u64,
    /// Rollback risk estimates across the sigma ladder.
    pub rollback_risk: RollbackRiskCurve,
    /// Economic value exposed to rollback in the window.
    pub value_at_risk_units: u128,
    /// Maximum acceptable expected loss for this window.
    pub max_acceptable_expected_loss_units: u128,
}

/// Conservative margins added to raw telemetry-derived estimates.
#[derive(Clone, Copy, Debug, PartialEq, Eq, Structural)]
pub struct TelemetryEstimateMargins {
    /// Additional coverage-risk percentage points.
    pub coverage_risk_margin_pct: u8,
    /// Additional round-failure percentage points.
    pub round_failure_margin_pct: u8,
}

impl Default for TelemetryEstimateMargins {
    fn default() -> (r: Self)
        ensures
            r.coverage_risk_margin_pct == 0,
            r.round_failure_margin_pct == 0,
    {
        TelemetryEstimateMargins { coverage_risk_margin_pct: 0, round_failure_margin_pct: 0 }
    }
}

/// Raw telemetry counters before conservative percentage estimates are derived.
#[derive(Clone, Copy, Debug, PartialEq, Eq, Structural)]
pub struct DynamicSigmaRawTelemetry {
    /// Total observed PoW work over the measurement window.
    pub total_hash_work: u128,
    /// Observed PoW work with objectively verifiable Crosslink participation.
    pub crosslink_participating_hash_work: u128,
    /// Tenderlink rounds observed in the measurement window.
    pub total_tenderlink_rounds: u64,
    /// Tenderlink rounds that failed to decide and required recovery.
    pub failed_tenderlink_rounds: u64,
    /// Measured PoW timing variance percentage.
    pub measured_block_interval_variance_pct: u8,
    /// Maximum observed rollback depth in the window.
    pub measured_observed_reorg_depth: u64,
    /// Rollback risk estimates across the sigma ladder.
    pub rollback_risk: RollbackRiskCurve,
    /// Economic value exposed to rollback in the window.
    pub value_at_risk_units: u128,
    /// Maximum acceptable expected loss for this window.
    pub max_acceptable_expected_loss_units: u128,
}

/// Hash-participation health status.
#[derive(Clone, Copy, Debug, PartialEq, Eq, Structural)]
pub enum HashParticipationStatus {
    /// Participation is at or above target.
    Healthy,
    /// Participation is below target but above the critical threshold.
    Degraded,
    /// Participation is below the critical threshold.
    Critical,
}

/// Economic risk target status.
#[derive(Clone, Copy, Debug, PartialEq, Eq, Structural)]
pub enum EconomicTargetStatus {
    /// The selected sigma satisfies the configured rollback-risk and loss targets.
    TargetSatisfied,
    /// The target is unreachable even at max sigma.
    TargetUnreachableAtMax,
}

/// Dynamic sigma decision and its component floors.
#[derive(Clone, Copy, Debug, PartialEq, Eq, Structural)]
pub struct DynamicSigmaDecision {
    /// Selected confirmation depth.
    pub sigma: u64,
    /// Floor derived from hash-work participation.
    pub hash_participation_floor: u64,
    /// Floor derived from observed rollback depth.
    pub reorg_floor: u64,
    /// Floor derived from the calibrated risk score.
    pub risk_score_floor: u64,
    /// Floor derived from rollback-risk and expected-loss targets.
    pub economic_floor: u64,
    /// Hash-participation health status.
    pub hash_participation_status: HashParticipationStatus,
    /// Economic target status at the selected sigma.
    pub economic_target_status: EconomicTargetStatus,
}

/// Invalid controller parameters or telemetry.
#[derive(Clone, Copy, Debug, PartialEq, Eq, Structural)]
pub enum DynamicSigmaError {
    /// Sigma ladder is not strictly increasing.
    InvalidSigmaLadder,
    /// Hash participation thresholds are not ordered percentages.
    InvalidHashParticipationThresholds,
    /// Risk thresholds are not ordered.
    InvalidRiskScoreThresholds,
    /// Telemetry has no observed PoW work.
    EmptyHashWorkWindow,
    /// Crosslink-participating work exceeds total observed work.
    ParticipatingHashWorkExceedsTotal,
    /// Telemetry has no Tenderlink rounds.
    EmptyTenderlinkRoundWindow,
    /// Failed Tenderlink rounds exceed total observed rounds.
    FailedRoundsExceedTotal,
    /// Coverage risk estimate is below the raw observed work gap.
    CoverageRiskEstimateTooLow,
    /// Round-failure estimate is below the raw observed round-failure rate.
    RoundFailureEstimateTooLow,
    /// Rollback risk estimates are not monotone as sigma increases.
    RollbackRiskCurveNotMonotone,
}

// ---------------------------------------------------------------------------
// Mathematical model
// ---------------------------------------------------------------------------

/// `x / d` rounded up, for `x >= 0` and `d > 0`.
pub open spec fn ceil_div(x: int, d: int) -> int {
    if x % d == 0 {
        x / d
    } else {
        x / d + 1
    }
}

/// `value * multiplier / divisor`, rounded up.
pub open spec fn spec_ceil_mul_div(value: int, multiplier: int, divisor: int) -> int {
    ceil_div(value * multiplier, divisor)
}

/// The percentage `numerator / denominator`, rounded up.
pub open spec fn spec_ceil_ratio_pct(numerator: int, denominator: int) -> int {
    ceil_div(numerator * 100, denominator)
}

/// `raw + margin`, capped at one hundred.
pub open spec fn spec_saturating_pct_add(raw_pct: u8, margin_pct: u8) -> u8 {
    if raw_pct + margin_pct > 100 {
        100
    } else {
        (raw_pct + margin_pct) as u8
    }
}

/// The first reason, in checking order, why `params` is rejected.
pub open spec fn params_error(params: DynamicSigmaParameters) -> Option<DynamicSigmaError> {
    if !(1 <= params.base_sigma && params.base_sigma < params.raised_sigma && params.raised_sigma
        < params.max_sigma) {
        Some(DynamicSigmaError::InvalidSigmaLadder)
    } else if !(params.critical_hash_participation_pct < params.target_hash_participation_pct
        && params.target_hash_participation_pct <= 100) {
        Some(DynamicSigmaError::InvalidHashParticipationThresholds)
    } else if params.risk_score_raised_threshold >= params.risk_score_max_threshold {
        Some(DynamicSigmaError::InvalidRiskScoreThresholds)
    } else {
        None
    }
}

/// The counter checks shared by raw telemetry and windows, in checking order.
pub open spec fn counters_error(
    total_hash_work: u128,
    participating: u128,
    total_rounds: u64,
    failed_rounds: u64,
) -> Option<DynamicSigmaError> {
    if total_hash_work == 0 {
        Some(DynamicSigmaError::EmptyHashWorkWindow)
    } else if participating > total_hash_work {
        Some(DynamicSigmaError::ParticipatingHashWorkExceedsTotal)
    } else if total_rounds == 0 {
        Some(DynamicSigmaError::EmptyTenderlinkRoundWindow)
    } else if failed_rounds > total_rounds {
        Some(DynamicSigmaError::FailedRoundsExceedTotal)
    } else {
        None
    }
}

/// Raw percentage of observed work that is not Crosslink-participating.
pub open spec fn raw_coverage_gap_pct(total_hash_work: u128, participating: u128) -> int {
    spec_ceil_ratio_pct(total_hash_work - participating, total_hash_work as int)
}

/// Raw percentage of Tenderlink rounds that failed.
pub open spec fn raw_round_failure_pct(total_rounds: u64, failed_rounds: u64) -> int {
    spec_ceil_ratio_pct(failed_rounds as int, total_rounds as int)
}

/// The first reason, in checking order, why `window` is rejected.
pub open spec fn window_error(window: DynamicSigmaTelemetryWindow) -> Option<DynamicSigmaError> {
    let counters = counters_error(
        window.total_hash_work,
        window.crosslink_participating_hash_work,
        window.total_tenderlink_rounds,
        window.failed_tenderlink_rounds,
    );
    if counters is Some {
        counters
    } else if window.estimated_coverage_risk_pct < raw_coverage_gap_pct(
        window.total_hash_work,
        window.crosslink_participating_hash_work,
    ) {
        Some(DynamicSigmaError::CoverageRiskEstimateTooLow)
    } else if window.estimated_round_failure_rate_pct < raw_round_failure_pct(
        window.total_tenderlink_rounds,
        window.failed_tenderlink_rounds,
    ) {
        Some(DynamicSigmaError::RoundFailureEstimateTooLow)
    } else if !(window.rollback_risk.base_sigma_ppm >= window.rollback_risk.raised_sigma_ppm
        && window.rollback_risk.raised_sigma_ppm >= window.rollback_risk.max_sigma_ppm) {
        Some(DynamicSigmaError::RollbackRiskCurveNotMonotone)
    } else {
        None
    }
}

/// The coverage-gap percentage of these counters fits the machine's 128-bit
/// arithmetic (the gap times one hundred is representable, or the gap is all
/// of the work).
pub open spec fn coverage_gap_fits(total_hash_work: u128, participating: u128) -> bool {
    (total_hash_work > 0 && participating <= total_hash_work) ==> (participating == 0 || (
    total_hash_work - participating) * 100 <= u128::MAX)
}

/// Whether the participating work covers at least `pct` percent of all work.
pub open spec fn spec_work_coverage_at_least(window: DynamicSigmaTelemetryWindow, pct: u8) -> bool {
    window.crosslink_participating_hash_work >= spec_ceil_mul_div(
        window.total_hash_work as int,
        pct as int,
        100,
    )
}

/// Floor and status derived from hash-work participation.
pub open spec fn spec_hash_participation_floor(
    params: DynamicSigmaParameters,
    window: DynamicSigmaTelemetryWindow,
) -> (u64, HashParticipationStatus) {
    if !spec_work_coverage_at_least(window, params.critical_hash_participation_pct) {
        (params.max_sigma, HashParticipationStatus::Critical)
    } else if !spec_work_coverage_at_least(window, params.target_hash_participation_pct) {
        (params.raised_sigma, HashParticipationStatus::Degraded)
    } else {
        (params.base_sigma, HashParticipationStatus::Healthy)
    }
}

/// Floor derived from the observed rollback depth.
pub open spec fn spec_reorg_floor(params: DynamicSigmaParameters, depth: u64) -> u64 {
    if depth >= params.raised_sigma {
        params.max_sigma
    } else if depth >= params.base_sigma {
        params.raised_sigma
    } else {
        params.base_sigma
    }
}

/// The weighted risk score of a window.
pub open spec fn spec_calibrated_risk_score(
    params: DynamicSigmaParameters,
    window: DynamicSigmaTelemetryWindow,
) -> int {
    params.coverage_risk_weight * window.estimated_coverage_risk_pct
        + params.round_failure_risk_weight * window.estimated_round_failure_rate_pct
        + params.block_interval_variance_risk_weight * window.measured_block_interval_variance_pct
        + params.reorg_depth_risk_weight * window.measured_observed_reorg_depth
}

/// Floor derived from a risk score.
pub open spec fn spec_risk_score_floor(params: DynamicSigmaParameters, score: int) -> u64 {
    if score >= params.risk_score_max_threshold {
        params.max_sigma
    } else if score >= params.risk_score_raised_threshold {
        params.raised_sigma
    } else {
        params.base_sigma
    }
}

/// Rollback risk at a given depth: the estimate of the lowest ladder step at or
/// above it.
pub open spec fn spec_rollback_risk_ppm_at_sigma(
    params: DynamicSigmaParameters,
    window: DynamicSigmaTelemetryWindow,
    sigma: u64,
) -> u64 {
    if sigma <= params.base_sigma {
        window.rollback_risk.base_sigma_ppm
    } else if sigma <= params.raised_sigma {
        window.rollback_risk.raised_sigma_ppm
    } else {
        window.rollback_risk.max_sigma_ppm
    }
}

/// Whether `risk_ppm * value` is within `budget * 1_000_000`, as decided in
/// 128-bit arithmetic: an unrepresentable expected loss fails, and an
/// unrepresentable budget (with a representable loss) passes.
pub open spec fn spec_expected_loss_within_budget(
    risk_ppm: int,
    value_at_risk_units: int,
    max_acceptable_expected_loss_units: int,
) -> bool {
    if risk_ppm * value_at_risk_units > u128::MAX {
        false
    } else if max_acceptable_expected_loss_units * PPM_DENOMINATOR > u128::MAX {
        true
    } else {
        risk_ppm * value_at_risk_units <= max_acceptable_expected_loss_units * PPM_DENOMINATOR
    }
}

/// Whether both the rollback-risk target and the expected-loss budget hold at `sigma`.
pub open spec fn spec_economic_target_satisfied_at_sigma(
    params: DynamicSigmaParameters,
    window: DynamicSigmaTelemetryWindow,
    sigma: u64,
) -> bool {
    let risk_ppm = spec_rollback_risk_ppm_at_sigma(params, window, sigma);
    risk_ppm <= params.max_acceptable_rollback_risk_ppm && spec_expected_loss_within_budget(
        risk_ppm as int,
        window.value_at_risk_units as int,
        window.max_acceptable_expected_loss_units as int,
    )
}

/// The lowest ladder step at which the economic target holds, else `max_sigma`.
pub open spec fn spec_economic_floor(
    params: DynamicSigmaParameters,
    window: DynamicSigmaTelemetryWindow,
) -> u64 {
    if spec_economic_target_satisfied_at_sigma(params, window, params.base_sigma) {
        params.base_sigma
    } else if spec_economic_target_satisfied_at_sigma(params, window, params.raised_sigma) {
        params.raised_sigma
    } else {
        params.max_sigma
    }
}

/// The greatest of four values.
pub open spec fn max4(a: u64, b: u64, c: u64, d: u64) -> u64 {
    let ab = if a >= b { a } else { b };
    let cd = if c >= d { c } else { d };
    if ab >= cd { ab } else { cd }
}

/// The decision taken on valid parameters and a valid window.
pub open spec fn spec_decision(
    params: DynamicSigmaParameters,
    window: DynamicSigmaTelemetryWindow,
) -> DynamicSigmaDecision {
    let (hash_floor, status) = spec_hash_participation_floor(params, window);
    let reorg_floor = spec_reorg_floor(params, window.measured_observed_reorg_depth);
    let risk_floor = spec_risk_score_floor(params, spec_calibrated_risk_score(params, window));
    let economic_floor = spec_economic_floor(params, window);
    let sigma = max4(hash_floor, reorg_floor, risk_floor, economic_floor);
    DynamicSigmaDecision {
        sigma,
        hash_participation_floor: hash_floor,
        reorg_floor,
        risk_score_floor: risk_floor,
        economic_floor,
        hash_participation_status: status,
        economic_target_status: if spec_economic_target_satisfied_at_sigma(params, window, sigma) {
            EconomicTargetStatus::TargetSatisfied
        } else {
            EconomicTargetStatus::TargetUnreachableAtMax
        },
    }
}

/// What `select_dynamic_sigma` returns.
pub open spec fn spec_select_dynamic_sigma(
    params: DynamicSigmaParameters,
    window: DynamicSigmaTelemetryWindow,
) -> Result<DynamicSigmaDecision, DynamicSigmaError> {
    if params_error(params) is Some {
        Err(params_error(params)->0)
    } else if window_error(window) is Some {
        Err(window_error(window)->0)
    } else {
        Ok(spec_decision(params, window))
    }
}

/// The risk score of a window that passed validation fits in 128 bits.
pub open spec fn risk_score_fits(
    params: DynamicSigmaParameters,
    window: DynamicSigmaTelemetryWindow,
) -> bool {
    (params_error(params) is None && window_error(window) is None) ==> spec_calibrated_risk_score(
        params,
        window,
    ) <= u128::MAX
}

/// The window derived from raw counters and margins.
pub open spec fn spec_window_from_raw(
    raw: DynamicSigmaRawTelemetry,
    margins: TelemetryEstimateMargins,
) -> DynamicSigmaTelemetryWindow {
    DynamicSigmaTelemetryWindow {
        total_hash_work: raw.total_hash_work,
        crosslink_participating_hash_work: raw.crosslink_participating_hash_work,
        total_tenderlink_rounds: raw.total_tenderlink_rounds,
        failed_tenderlink_rounds: raw.failed_tenderlink_rounds,
        estimated_coverage_risk_pct: spec_saturating_pct_add(
            raw_coverage_gap_pct(raw.total_hash_work, raw.crosslink_participating_hash_work) as u8,
            margins.coverage_risk_margin_pct,
        ),
        estimated_round_failure_rate_pct: spec_saturating_pct_add(
            raw_round_failure_pct(raw.total_tenderlink_rounds, raw.failed_tenderlink_rounds) as u8,
            margins.round_failure_margin_pct,
        ),
        measured_block_interval_variance_pct: raw.measured_block_interval_variance_pct,
        measured_observed_reorg_depth: raw.measured_observed_reorg_depth,
        rollback_risk: raw.rollback_risk,
        value_at_risk_units: raw.value_at_risk_units,
        max_acceptable_expected_loss_units: raw.max_acceptable_expected_loss_units,
    }
}

/// What `into_window` returns.
pub open spec fn spec_into_window(
    raw: DynamicSigmaRawTelemetry,
    margins: TelemetryEstimateMargins,
) -> Result<DynamicSigmaTelemetryWindow, DynamicSigmaError> {
    let counters = counters_error(
        raw.total_hash_work,
        raw.crosslink_participating_hash_work,
        raw.total_tenderlink_rounds,
        raw.failed_tenderlink_rounds,
    );
    if counters is Some {
        Err(counters->0)
    } else if window_error(spec_window_from_raw(raw, margins)) is Some {
        Err(window_error(spec_window_from_raw(raw, margins))->0)
    } else {
        Ok(spec_window_from_raw(raw, margins))
    }
}

// ---------------------------------------------------------------------------
// Arithmetic lemmas
// ---------------------------------------------------------------------------

/// Splitting the dividend by the divisor does not change a rounded-up product.
proof fn lemma_ceil_mul_div_split(v: int, m: int, d: int)
    requires
        v >= 0,
        m >= 0,
        d > 0,
    ensures
        (v / d) * m + ceil_div((v % d) * m, d) == ceil_div(v * m, d),
        (v % d) * m >= 0,
        (v / d) * m >= 0,
{
    let q = v / d;
    let r = v % d;
    lemma_fundamental_div_mod(v, d);
    assert(0 <= r < d) by {
        vstd::arithmetic::div_mod::lemma_mod_pos_bound(v, d);
    }
    assert(q >= 0) by {
        vstd::arithmetic::div_mod::lemma_div_pos_is_pos(v, d);
    }
    assert(v * m == d * (q * m) + r * m) by (nonlinear_arith)
        requires
            v == d * q + r,
    ;
    assert((q * m) * d == d * (q * m)) by (nonlinear_arith);
    lemma_hoist_over_denominator(r * m, q * m, d as nat);
    lemma_mod_multiples_vanish(q * m, r * m, d);
    assert(r * m >= 0 && q * m >= 0) by (nonlinear_arith)
        requires
            r >= 0,
            q >= 0,
            m >= 0,
    ;
}

/// A rounded-up percentage of a part of a whole is at most one hundred.
proof fn lemma_ceil_ratio_pct_bound(n: int, d: int)
    requires
        0 <= n <= d,
        d > 0,
    ensures
        0 <= spec_ceil_ratio_pct(n, d) <= 100,
{
    lemma_fundamental_div_mod(n * 100, d);
    vstd::arithmetic::div_mod::lemma_mod_pos_bound(n * 100, d);
    let q = (n * 100) / d;
    let r = (n * 100) % d;
    assert(q <= 100 && (q == 100 ==> r == 0) && q >= 0) by (nonlinear_arith)
        requires
            n * 100 == d * q + r,
            0 <= r < d,
            0 <= n <= d,
    ;
}

/// Rounding a quotient up is monotone in the dividend.
proof fn lemma_ceil_div_monotone(x: int, y: int, d: int)
    requires
        0 <= x <= y,
        d > 0,
    ensures
        ceil_div(x, d) <= ceil_div(y, d),
{
    lemma_fundamental_div_mod(x, d);
    lemma_fundamental_div_mod(y, d);
    vstd::arithmetic::div_mod::lemma_mod_pos_bound(x, d);
    vstd::arithmetic::div_mod::lemma_mod_pos_bound(y, d);
    let qx = x / d;
    let rx = x % d;
    let qy = y / d;
    let ry = y % d;
    assert(qx <= qy && (qx == qy ==> rx <= ry)) by (nonlinear_arith)
        requires
            x == d * qx + rx,
            y == d * qy + ry,
            0 <= rx < d,
            0 <= ry < d,
            x <= y,
    ;
}

/// The rounded-up share `pct / 100` of `total` never exceeds `total`.
proof fn lemma_coverage_threshold_bound(total: int, pct: int)
    requires
        total >= 0,
        0 <= pct <= 100,
    ensures
        (total / 100) * pct <= total,
        (total % 100) * pct <= 10000,
        ceil_div(total * pct, 100) <= total,
{
    lemma_ceil_mul_div_split(total, pct, 100);
    lemma_fundamental_div_mod(total, 100);
    vstd::arithmetic::div_mod::lemma_mod_pos_bound(total, 100);
    let q = total / 100;
    let r = total % 100;
    assert(q >= 0) by {
        vstd::arithmetic::div_mod::lemma_div_pos_is_pos(total, 100);
    }
    assert(q * pct <= q * 100 && r * pct <= r * 100 && r * pct <= 10000) by (nonlinear_arith)
        requires
            q >= 0,
            0 <= r < 100,
            0 <= pct <= 100,
    ;
    lemma_fundamental_div_mod(r * pct, 100);
    vstd::arithmetic::div_mod::lemma_mod_pos_bound(r * pct, 100);
    let q2 = (r * pct) / 100;
    let r2 = (r * pct) % 100;
    assert(q2 <= r && (q2 == r ==> r2 == 0)) by (nonlinear_arith)
        requires
            r * pct == 100 * q2 + r2,
            0 <= r2 < 100,
            r * pct <= r * 100,
            r >= 0,
    ;
}

// ---------------------------------------------------------------------------
// Executable controller
// ---------------------------------------------------------------------------

impl DynamicSigmaRawTelemetry {
    /// Convert raw observation counters into a conservative telemetry window.
    pub fn into_window(self, margins: TelemetryEstimateMargins) -> (r: Result<
        DynamicSigmaTelemetryWindow,
        DynamicSigmaError,
    >)
        requires
            coverage_gap_fits(self.total_hash_work, self.crosslink_participating_hash_work),
        ensures
            r == spec_into_window(self, margins),
    {
        if self.total_hash_work == 0 {
            return Err(DynamicSigmaError::EmptyHashWorkWindow);
        }
        if self.crosslink_participating_hash_work > self.total_hash_work {
            return Err(DynamicSigmaError::ParticipatingHashWorkExceedsTotal);
        }
        if self.total_tenderlink_rounds == 0 {
            return Err(DynamicSigmaError::EmptyTenderlinkRoundWindow);
        }
        if self.failed_tenderlink_rounds > self.total_tenderlink_rounds {
            return Err(DynamicSigmaError::FailedRoundsExceedTotal);
        }
        let raw_coverage = coverage_gap_pct(
            self.total_hash_work,
            self.crosslink_participating_hash_work,
        );
        let raw_rounds = round_failure_pct(
            self.total_tenderlink_rounds,
            self.failed_tenderlink_rounds,
        );
        let window = DynamicSigmaTelemetryWindow {
            total_hash_work: self.total_hash_work,
            crosslink_participating_hash_work: self.crosslink_participating_hash_work,
            total_tenderlink_rounds: self.total_tenderlink_rounds,
            failed_tenderlink_rounds: self.failed_tenderlink_rounds,
            estimated_coverage_risk_pct: saturating_pct_add(
                raw_coverage,
                margins.coverage_risk_margin_pct,
            ),
            estimated_round_failure_rate_pct: saturating_pct_add(
                raw_rounds,
                margins.round_failure_margin_pct,
            ),
            measured_block_interval_variance_pct: self.measured_block_interval_variance_pct,
            measured_observed_reorg_depth: self.measured_observed_reorg_depth,
            rollback_risk: self.rollback_risk,
            value_at_risk_units: self.value_at_risk_units,
            max_acceptable_expected_loss_units: self.max_acceptable_expected_loss_units,
        };
        assert(window == spec_window_from_raw(self, margins));
        match validate_window(window) {
            Err(e) => Err(e),
            Ok(()) => Ok(window),
        }
    }
}

/// The rounded-up percentage of observed work that is not participating.
fn coverage_gap_pct(total_hash_work: u128, participating: u128) -> (r: u8)
    requires
        total_hash_work > 0,
        participating <= total_hash_work,
        coverage_gap_fits(total_hash_work, participating),
    ensures
        r == raw_coverage_gap_pct(total_hash_work, participating),
        r <= 100,
{
    let gap = total_hash_work - participating;
    proof {
        if participating == 0 {
            lemma_mod_self_0(total_hash_work as int);
        } else {
            lemma_small_mod(gap as nat, total_hash_work as nat);
        }
    }
    ceil_ratio_pct(gap, total_hash_work)
}

/// The rounded-up percentage of failed rounds.
fn round_failure_pct(total_rounds: u64, failed_rounds: u64) -> (r: u8)
    requires
        total_rounds > 0,
        failed_rounds <= total_rounds,
    ensures
        r == raw_round_failure_pct(total_rounds, failed_rounds),
        r <= 100,
{
    proof {
        vstd::arithmetic::div_mod::lemma_mod_pos_bound(failed_rounds as int, total_rounds as int);
    }
    ceil_ratio_pct(failed_rounds as u128, total_rounds as u128)
}

/// Select dynamic sigma from a validated telemetry window.
pub fn select_dynamic_sigma(
    params: DynamicSigmaParameters,
    window: DynamicSigmaTelemetryWindow,
) -> (r: Result<DynamicSigmaDecision, DynamicSigmaError>)
    requires
        coverage_gap_fits(window.total_hash_work, window.crosslink_participating_hash_work),
        risk_score_fits(params, window),
    ensures
        r == spec_select_dynamic_sigma(params, window),
{
    match validate_params(params) {
        Err(e) => {
            return Err(e);
        },
        Ok(()) => {},
    }
    match validate_window(window) {
        Err(e) => {
            return Err(e);
        },
        Ok(()) => {},
    }
    let (hash_floor, hash_status) = hash_participation_floor(params, window);
    let reorg = reorg_floor(params, window.measured_observed_reorg_depth);
    let risk = risk_score_floor(params, calibrated_risk_score(params, window));
    let economic = economic_floor(params, window);
    let sigma = max_floor([hash_floor, reorg, risk, economic]);
    let economic_target_status = if economic_target_satisfied_at_sigma(params, window, sigma) {
        EconomicTargetStatus::TargetSatisfied
    } else {
        EconomicTargetStatus::TargetUnreachableAtMax
    };
    Ok(
        DynamicSigmaDecision {
            sigma,
            hash_participation_floor: hash_floor,
            reorg_floor: reorg,
            risk_score_floor: risk,
            economic_floor: economic,
            hash_participation_status: hash_status,
            economic_target_status,
        },
    )
}

/// Check the controller parameters.
pub fn validate_params(params: DynamicSigmaParameters) -> (r: Result<(), DynamicSigmaError>)
    ensures
        r is Ok <==> params_error(params) is None,
        r is Err ==> r->Err_0 == params_error(params)->0,
{
    if !(1 <= params.base_sigma && params.base_sigma < params.raised_sigma && params.raised_sigma
        < params.max_sigma) {
        return Err(DynamicSigmaError::InvalidSigmaLadder);
    }
    if !(params.critical_hash_participation_pct < params.target_hash_participation_pct
        && params.target_hash_participation_pct <= 100) {
        return Err(DynamicSigmaError::InvalidHashParticipationThresholds);
    }
    if params.risk_score_raised_threshold >= params.risk_score_max_threshold {
        return Err(DynamicSigmaError::InvalidRiskScoreThresholds);
    }
    Ok(())
}

/// Check a telemetry window.
pub fn validate_window(window: DynamicSigmaTelemetryWindow) -> (r: Result<(), DynamicSigmaError>)
    requires
        coverage_gap_fits(window.total_hash_work, window.crosslink_participating_hash_work),
    ensures
        r is Ok <==> window_error(window) is None,
        r is Err ==> r->Err_0 == window_error(window)->0,
{
    if window.total_hash_work == 0 {
        return Err(DynamicSigmaError::EmptyHashWorkWindow);
    }
    if window.crosslink_participating_hash_work > window.total_hash_work {
        return Err(DynamicSigmaError::ParticipatingHashWorkExceedsTotal);
    }
    if window.total_tenderlink_rounds == 0 {
        return Err(DynamicSigmaError::EmptyTenderlinkRoundWindow);
    }
    if window.failed_tenderlink_rounds > window.total_tenderlink_rounds {
        return Err(DynamicSigmaError::FailedRoundsExceedTotal);
    }
    let raw_coverage = coverage_gap_pct(
        window.total_hash_work,
        window.crosslink_participating_hash_work,
    );
    if window.estimated_coverage_risk_pct < raw_coverage {
        return Err(DynamicSigmaError::CoverageRiskEstimateTooLow);
    }
    let raw_rounds = round_failure_pct(
        window.total_tenderlink_rounds,
        window.failed_tenderlink_rounds,
    );
    if window.estimated_round_failure_rate_pct < raw_rounds {
        return Err(DynamicSigmaError::RoundFailureEstimateTooLow);
    }
    if !(window.rollback_risk.base_sigma_ppm >= window.rollback_risk.raised_sigma_ppm
        && window.rollback_risk.raised_sigma_ppm >= window.rollback_risk.max_sigma_ppm) {
        return Err(DynamicSigmaError::RollbackRiskCurveNotMonotone);
    }
    Ok(())
}

/// The greatest of four floors.
pub fn max_floor(floors: [u64; 4]) -> (r: u64)
    ensures
        r == max4(floors[0], floors[1], floors[2], floors[3]),
{
    let ab = if floors[0] >= floors[1] {
        floors[0]
    } else {
        floors[1]
    };
    let cd = if floors[2] >= floors[3] {
        floors[2]
    } else {
        floors[3]
    };
    if ab >= cd {
        ab
    } else {
        cd
    }
}

/// Floor and status derived from hash-work participation.
pub fn hash_participation_floor(
    params: DynamicSigmaParameters,
    window: DynamicSigmaTelemetryWindow,
) -> (r: (u64, HashParticipationStatus))
    requires
        params.critical_hash_participation_pct <= 100,
        params.target_hash_participation_pct <= 100,
    ensures
        r == spec_hash_participation_floor(params, window),
{
    if !work_coverage_at_least(window, params.critical_hash_participation_pct) {
        (params.max_sigma, HashParticipationStatus::Critical)
    } else if !work_coverage_at_least(window, params.target_hash_participation_pct) {
        (params.raised_sigma, HashParticipationStatus::Degraded)
    } else {
        (params.base_sigma, HashParticipationStatus::Healthy)
    }
}

/// Whether the participating work covers at least `pct` percent of all work.
pub fn work_coverage_at_least(window: DynamicSigmaTelemetryWindow, pct: u8) -> (r: bool)
    requires
        pct <= 100,
    ensures
        r == spec_work_coverage_at_least(window, pct),
{
    proof {
        lemma_coverage_threshold_bound(window.total_hash_work as int, pct as int);
    }
    let required_work = ceil_mul_div(window.total_hash_work, pct as u128, 100);
    window.crosslink_participating_hash_work >= required_work
}

/// Floor derived from the observed rollback depth.
pub fn reorg_floor(params: DynamicSigmaParameters, depth: u64) -> (r: u64)
    ensures
        r == spec_reorg_floor(params, depth),
{
    if depth >= params.raised_sigma {
        params.max_sigma
    } else if depth >= params.base_sigma {
        params.raised_sigma
    } else {
        params.base_sigma
    }
}

/// The weighted risk score of a window.
pub fn calibrated_risk_score(
    params: DynamicSigmaParameters,
    window: DynamicSigmaTelemetryWindow,
) -> (r: u128)
    requires
        spec_calibrated_risk_score(params, window) <= u128::MAX,
    ensures
        r == spec_calibrated_risk_score(params, window),
{
    let a = params.coverage_risk_weight as u128;
    let b = params.round_failure_risk_weight as u128;
    let c = params.block_interval_variance_risk_weight as u128;
    let d = params.reorg_depth_risk_weight as u128;
    let x = window.estimated_coverage_risk_pct as u128;
    let y = window.estimated_round_failure_rate_pct as u128;
    let z = window.measured_block_interval_variance_pct as u128;
    let w = window.measured_observed_reorg_depth as u128;
    assert(a * x <= u128::MAX && b * y <= u128::MAX && c * z <= u128::MAX && d * w <= u128::MAX
        && a * x >= 0 && b * y >= 0 && c * z >= 0 && d * w >= 0) by (nonlinear_arith)
        requires
            a <= u64::MAX,
            b <= u64::MAX,
            c <= u64::MAX,
            d <= u64::MAX,
            x <= u8::MAX,
            y <= u8::MAX,
            z <= u8::MAX,
            w <= u64::MAX,
            a >= 0,
            b >= 0,
            c >= 0,
            d >= 0,
            x >= 0,
            y >= 0,
            z >= 0,
            w >= 0,
    ;
    a * x + b * y + c * z + d * w
}

/// Floor derived from a risk score.
pub fn risk_score_floor(params: DynamicSigmaParameters, score: u128) -> (r: u64)
    ensures
        r == spec_risk_score_floor(params, score as int),
{
    if score >= params.risk_score_max_threshold as u128 {
        params.max_sigma
    } else if score >= params.risk_score_raised_threshold as u128 {
        params.raised_sigma
    } else {
        params.base_sigma
    }
}

/// The lowest ladder step at which the economic target holds, else `max_sigma`.
pub fn economic_floor(params: DynamicSigmaParameters, window: DynamicSigmaTelemetryWindow) -> (r:
    u64)
    ensures
        r == spec_economic_floor(params, window),
{
    if economic_target_satisfied_at_sigma(params, window, params.base_sigma) {
        params.base_sigma
    } else if economic_target_satisfied_at_sigma(params, window, params.raised_sigma) {
        params.raised_sigma
    } else {
        params.max_sigma
    }
}

/// Whether both the rollback-risk target and the expected-loss budget hold at `sigma`.
pub fn economic_target_satisfied_at_sigma(
    params: DynamicSigmaParameters,
    window: DynamicSigmaTelemetryWindow,
    sigma: u64,
) -> (r: bool)
    ensures
        r == spec_economic_target_satisfied_at_sigma(params, window, sigma),
{
    let risk_ppm = rollback_risk_ppm_at_sigma(params, window, sigma);
    risk_ppm <= params.max_acceptable_rollback_risk_ppm && expected_loss_within_budget(
        risk_ppm as u128,
        window.value_at_risk_units,
        window.max_acceptable_expected_loss_units,
    )
}

/// Rollback risk at a given depth.
pub fn rollback_risk_ppm_at_sigma(
    params: DynamicSigmaParameters,
    window: DynamicSigmaTelemetryWindow,
    sigma: u64,
) -> (r: u64)
    ensures
        r == spec_rollback_risk_ppm_at_sigma(params, window, sigma),
{
    if sigma <= params.base_sigma {
        window.rollback_risk.base_sigma_ppm
    } else if sigma <= params.raised_sigma {
        window.rollback_risk.raised_sigma_ppm
    } else {
        window.rollback_risk.max_sigma_ppm
    }
}

/// Whether the expected loss `risk_ppm * value / 1_000_000` is within budget.
pub fn expected_loss_within_budget(
    risk_ppm: u128,
    value_at_risk_units: u128,
    max_acceptable_expected_loss_units: u128,
) -> (r: bool)
    ensures
        r == spec_expected_loss_within_budget(
            risk_ppm as int,
            value_at_risk_units as int,
            max_acceptable_expected_loss_units as int,
        ),
{
    let expected_loss_numerator = match risk_ppm.checked_mul(value_at_risk_units) {
        Some(v) => v,
        None => {
            return false;
        },
    };
    let loss_budget_numerator = match max_acceptable_expected_loss_units.checked_mul(
        PPM_DENOMINATOR,
    ) {
        Some(v) => v,
        None => {
            return true;
        },
    };
    expected_loss_numerator <= loss_budget_numerator
}

/// The percentage `numerator / denominator`, rounded up.
pub fn ceil_ratio_pct(numerator: u128, denominator: u128) -> (r: u8)
    requires
        denominator > 0,
        numerator <= denominator,
        (numerator % denominator) * 100 <= u128::MAX,
    ensures
        r == spec_ceil_ratio_pct(numerator as int, denominator as int),
        r <= 100,
{
    proof {
        lemma_ceil_ratio_pct_bound(numerator as int, denominator as int);
        lemma_ceil_mul_div_split(numerator as int, 100, denominator as int);
        if numerator < denominator {
            lemma_small_mod(numerator as nat, denominator as nat);
        } else {
            lemma_mod_self_0(denominator as int);
        }
        vstd::arithmetic::div_mod::lemma_div_is_ordered(
            numerator as int,
            denominator as int,
            denominator as int,
        );
        vstd::arithmetic::div_mod::lemma_div_by_self(denominator as int);
    }
    let r = ceil_mul_div(numerator, 100, denominator);
    r as u8
}

/// `value * multiplier / divisor`, rounded up, computed without forming the
/// full product.
pub fn ceil_mul_div(value: u128, multiplier: u128, divisor: u128) -> (r: u128)
    requires
        divisor > 0,
        (value / divisor) * multiplier <= u128::MAX,
        (value % divisor) * multiplier <= u128::MAX,
        spec_ceil_mul_div(value as int, multiplier as int, divisor as int) <= u128::MAX,
    ensures
        r == spec_ceil_mul_div(value as int, multiplier as int, divisor as int),
{
    proof {
        lemma_ceil_mul_div_split(value as int, multiplier as int, divisor as int);
    }
    let quotient = value / divisor;
    let remainder = value % divisor;
    let quotient_product = quotient * multiplier;
    let remainder_product = remainder * multiplier;
    let remainder_quotient = remainder_product / divisor;
    let rounded = if remainder_product % divisor == 0 {
        remainder_quotient
    } else {
        remainder_quotient + 1
    };
    quotient_product + rounded
}

/// `raw_pct + margin_pct`, capped at one hundred.
pub fn saturating_pct_add(raw_pct: u8, margin_pct: u8) -> (r: u8)
    ensures
        r == spec_saturating_pct_add(raw_pct, margin_pct),
{
    let sum = raw_pct.saturating_add(margin_pct);
    if sum > 100 {
        100
    } else {
        sum
    }
}


// ---------------------------------------------------------------------------
// Proposal evidence
// ---------------------------------------------------------------------------

/// Controller evidence carried by a dynamic-sigma BFT proposal: the raw
/// telemetry the proposer observed, the margins it applied, and the sigma it
/// selected.
#[derive(Clone, Copy, Debug, PartialEq, Eq, Structural)]
pub struct DynamicSigmaProposalEvidence {
    /// Raw telemetry counters observed by the proposer.
    pub raw_telemetry: DynamicSigmaRawTelemetry,
    /// Conservative margins applied to the raw counters.
    pub margins: TelemetryEstimateMargins,
    /// Confirmation depth selected by the proposer.
    pub selected_sigma: u64,
}

/// Why proposal-carried dynamic-sigma evidence is rejected.
#[derive(Clone, Copy, Debug, PartialEq, Eq, Structural)]
pub enum DynamicSigmaEvidenceError {
    /// The telemetry or the parameters were rejected by the controller.
    Controller(DynamicSigmaError),
    /// The selected sigma is not one of the ladder steps.
    SelectedSigmaNotOnLadder {
        /// The proposer-selected sigma.
        selected: u64,
    },
    /// The selected sigma is less conservative than the controller requires.
    SelectedSigmaBelowRequired {
        /// The proposer-selected sigma.
        selected: u64,
        /// The sigma selected by the controller from the same evidence.
        required: u64,
    },
}

/// Whether `sigma` is one of the three ladder steps.
pub open spec fn on_ladder(params: DynamicSigmaParameters, sigma: u64) -> bool {
    sigma == params.base_sigma || sigma == params.raised_sigma || sigma == params.max_sigma
}

/// What `validate_dynamic_sigma_evidence` returns.
pub open spec fn spec_validate_evidence(
    params: DynamicSigmaParameters,
    evidence: DynamicSigmaProposalEvidence,
) -> Result<DynamicSigmaDecision, DynamicSigmaEvidenceError> {
    let window = spec_into_window(evidence.raw_telemetry, evidence.margins);
    if window is Err {
        Err(DynamicSigmaEvidenceError::Controller(window->Err_0))
    } else if spec_select_dynamic_sigma(params, window->Ok_0) is Err {
        Err(DynamicSigmaEvidenceError::Controller(spec_select_dynamic_sigma(params, window->Ok_0)->Err_0))
    } else if !on_ladder(params, evidence.selected_sigma) {
        Err(DynamicSigmaEvidenceError::SelectedSigmaNotOnLadder { selected: evidence.selected_sigma })
    } else if evidence.selected_sigma < spec_select_dynamic_sigma(params, window->Ok_0)->Ok_0.sigma {
        Err(
            DynamicSigmaEvidenceError::SelectedSigmaBelowRequired {
                selected: evidence.selected_sigma,
                required: spec_select_dynamic_sigma(params, window->Ok_0)->Ok_0.sigma,
            },
        )
    } else {
        Ok(spec_select_dynamic_sigma(params, window->Ok_0)->Ok_0)
    }
}

/// The arithmetic of validating this evidence fits the machine's integers.
pub open spec fn evidence_fits(
    params: DynamicSigmaParameters,
    evidence: DynamicSigmaProposalEvidence,
) -> bool {
    &&& coverage_gap_fits(
        evidence.raw_telemetry.total_hash_work,
        evidence.raw_telemetry.crosslink_participating_hash_work,
    )
    &&& risk_score_fits(params, spec_window_from_raw(evidence.raw_telemetry, evidence.margins))
}

/// Whether the controller arithmetic on `evidence` fits the machine's
/// integers: the check to make before validating untrusted evidence.
pub fn evidence_fits_check(params: DynamicSigmaParameters, evidence: DynamicSigmaProposalEvidence) -> (r:
    bool)
    ensures
        r == evidence_fits(params, evidence),
{
    let raw = evidence.raw_telemetry;
    let total = raw.total_hash_work;
    let participating = raw.crosslink_participating_hash_work;
    if total > 0 && participating <= total && participating != 0 {
        let gap = total - participating;
        if gap > u128::MAX / 100 {
            return false;
        }
    }
    let window = match raw.into_window(evidence.margins) {
        Err(_) => {
            return true;
        },
        Ok(w) => w,
    };
    if validate_params(params).is_err() {
        return true;
    }
    proof {
        let w1 = params.coverage_risk_weight as int;
        let w2 = params.round_failure_risk_weight as int;
        let w3 = params.block_interval_variance_risk_weight as int;
        let p1 = window.estimated_coverage_risk_pct as int;
        let p2 = window.estimated_round_failure_rate_pct as int;
        let p3 = window.measured_block_interval_variance_pct as int;
        assert(w1 * p1 <= u128::MAX && w2 * p2 <= u128::MAX && w3 * p3 <= u128::MAX)
            by (nonlinear_arith)
            requires
                0 <= w1 <= u64::MAX,
                0 <= w2 <= u64::MAX,
                0 <= w3 <= u64::MAX,
                0 <= p1 <= 255,
                0 <= p2 <= 255,
                0 <= p3 <= 255,
        ;
    }
    let a = params.coverage_risk_weight as u128 * window.estimated_coverage_risk_pct as u128;
    let b = params.round_failure_risk_weight as u128 * window.estimated_round_failure_rate_pct as u128;
    let c = params.block_interval_variance_risk_weight as u128
        * window.measured_block_interval_variance_pct as u128;
    proof {
        let pw = params.reorg_depth_risk_weight as int;
        let dw = window.measured_observed_reorg_depth as int;
        assert(pw * dw <= u128::MAX) by (nonlinear_arith)
            requires
                0 <= pw <= u64::MAX,
                0 <= dw <= u64::MAX,
        ;
    }
    let d = params.reorg_depth_risk_weight as u128 * window.measured_observed_reorg_depth as u128;
    if a > u128::MAX - b {
        return false;
    }
    let ab = a + b;
    if ab > u128::MAX - c {
        return false;
    }
    let abc = ab + c;
    abc <= u128::MAX - d
}

/// Validate proposal-carried evidence: rebuild the telemetry window, rerun the
/// controller, and require the selected sigma to be a ladder step at least as
/// conservative as the controller's choice.  Returns the controller decision.
pub fn validate_dynamic_sigma_evidence(
    params: DynamicSigmaParameters,
    evidence: DynamicSigmaProposalEvidence,
) -> (r: Result<DynamicSigmaDecision, DynamicSigmaEvidenceError>)
    requires
        evidence_fits(params, evidence),
    ensures
        r == spec_validate_evidence(params, evidence),
        r is Ok ==> r->Ok_0.sigma <= evidence.selected_sigma,
{
    let window = match evidence.raw_telemetry.into_window(evidence.margins) {
        Ok(w) => w,
        Err(e) => {
            return Err(DynamicSigmaEvidenceError::Controller(e));
        },
    };
    let decision = match select_dynamic_sigma(params, window) {
        Ok(d) => d,
        Err(e) => {
            return Err(DynamicSigmaEvidenceError::Controller(e));
        },
    };
    let selected = evidence.selected_sigma;
    if !(selected == params.base_sigma || selected == params.raised_sigma || selected
        == params.max_sigma) {
        return Err(DynamicSigmaEvidenceError::SelectedSigmaNotOnLadder { selected });
    }
    if selected < decision.sigma {
        return Err(
            DynamicSigmaEvidenceError::SelectedSigmaBelowRequired {
                selected,
                required: decision.sigma,
            },
        );
    }
    Ok(decision)
}

/// Controller parameters used by the dynamic-sigma prototype.
pub fn prototype_dynamic_sigma_parameters() -> (r: DynamicSigmaParameters)
    ensures
        r == spec_prototype_dynamic_sigma_parameters(),
        params_error(r) is None,
{
    DynamicSigmaParameters {
        base_sigma: 1,
        raised_sigma: 3,
        max_sigma: 6,
        target_hash_participation_pct: 67,
        critical_hash_participation_pct: 50,
        max_acceptable_rollback_risk_ppm: 25,
        coverage_risk_weight: 2,
        round_failure_risk_weight: 3,
        block_interval_variance_risk_weight: 1,
        reorg_depth_risk_weight: 5,
        risk_score_raised_threshold: 60,
        risk_score_max_threshold: 100,
    }
}

/// The prototype controller parameters.
pub open spec fn spec_prototype_dynamic_sigma_parameters() -> DynamicSigmaParameters {
    DynamicSigmaParameters {
        base_sigma: 1,
        raised_sigma: 3,
        max_sigma: 6,
        target_hash_participation_pct: 67,
        critical_hash_participation_pct: 50,
        max_acceptable_rollback_risk_ppm: 25,
        coverage_risk_weight: 2,
        round_failure_risk_weight: 3,
        block_interval_variance_risk_weight: 1,
        reorg_depth_risk_weight: 5,
        risk_score_raised_threshold: 60,
        risk_score_max_threshold: 100,
    }
}

// ---------------------------------------------------------------------------
// Laws
// ---------------------------------------------------------------------------

/// The selected sigma is the most conservative of the four floors: it is at
/// least every floor, equal to one of them, and a step of the ladder.
pub proof fn lemma_sigma_is_most_conservative_floor(
    params: DynamicSigmaParameters,
    window: DynamicSigmaTelemetryWindow,
)
    requires
        params_error(params) is None,
        window_error(window) is None,
    ensures
        ({
            let d = spec_decision(params, window);
            &&& d.sigma >= d.hash_participation_floor
            &&& d.sigma >= d.reorg_floor
            &&& d.sigma >= d.risk_score_floor
            &&& d.sigma >= d.economic_floor
            &&& (d.sigma == d.hash_participation_floor || d.sigma == d.reorg_floor || d.sigma
                == d.risk_score_floor || d.sigma == d.economic_floor)
            &&& on_ladder(params, d.sigma)
            &&& params.base_sigma <= d.sigma <= params.max_sigma
        }),
{
}

/// Participation below the critical threshold forces the maximum sigma.
pub proof fn lemma_critical_participation_forces_max_sigma(
    params: DynamicSigmaParameters,
    window: DynamicSigmaTelemetryWindow,
)
    requires
        params_error(params) is None,
        window_error(window) is None,
        !spec_work_coverage_at_least(window, params.critical_hash_participation_pct),
    ensures
        spec_decision(params, window).hash_participation_status
            == HashParticipationStatus::Critical,
        spec_decision(params, window).sigma == params.max_sigma,
{
}

/// An observed rollback at least as deep as the raised sigma forces the maximum sigma.
pub proof fn lemma_deep_reorg_forces_max_sigma(
    params: DynamicSigmaParameters,
    window: DynamicSigmaTelemetryWindow,
)
    requires
        params_error(params) is None,
        window_error(window) is None,
        window.measured_observed_reorg_depth >= params.raised_sigma,
    ensures
        spec_decision(params, window).sigma == params.max_sigma,
{
}

/// The observed rollback depth sets the reorg floor of the selected sigma:
/// a rollback at least as deep as the raised sigma makes it the maximum
/// sigma, one at least as deep as the base sigma but shallower than the raised
/// sigma makes it the raised sigma, and a shallower one leaves it at the base
/// sigma; the selected sigma is never below that floor.
pub proof fn lemma_reorg_depth_sets_floor(
    params: DynamicSigmaParameters,
    window: DynamicSigmaTelemetryWindow,
)
    requires
        spec_select_dynamic_sigma(params, window) is Ok,
    ensures
        ({
            let d = spec_select_dynamic_sigma(params, window)->Ok_0;
            let depth = window.measured_observed_reorg_depth;
            &&& depth >= params.raised_sigma ==> d.reorg_floor == params.max_sigma && d.sigma
                == params.max_sigma
            &&& params.base_sigma <= depth < params.raised_sigma ==> d.reorg_floor
                == params.raised_sigma && d.sigma >= params.raised_sigma
            &&& depth < params.base_sigma ==> d.reorg_floor == params.base_sigma
            &&& d.sigma >= d.reorg_floor
        }),
{
    lemma_sigma_is_most_conservative_floor(params, window);
}

/// A window derived from raw telemetry carries the raw counters, the
/// measured variance and rollback depth, the rollback-risk curve, the value at
/// risk and the expected-loss budget unchanged; only the two risk estimates
/// are derived, and each is at least its raw percentage (capped at 100).
pub proof fn lemma_derived_window_copies_raw_fields(
    raw: DynamicSigmaRawTelemetry,
    margins: TelemetryEstimateMargins,
)
    requires
        spec_into_window(raw, margins) is Ok,
    ensures
        ({
            let w = spec_into_window(raw, margins)->Ok_0;
            &&& w.total_hash_work == raw.total_hash_work
            &&& w.crosslink_participating_hash_work == raw.crosslink_participating_hash_work
            &&& w.total_tenderlink_rounds == raw.total_tenderlink_rounds
            &&& w.failed_tenderlink_rounds == raw.failed_tenderlink_rounds
            &&& w.measured_block_interval_variance_pct == raw.measured_block_interval_variance_pct
            &&& w.measured_observed_reorg_depth == raw.measured_observed_reorg_depth
            &&& w.rollback_risk == raw.rollback_risk
            &&& w.value_at_risk_units == raw.value_at_risk_units
            &&& w.max_acceptable_expected_loss_units == raw.max_acceptable_expected_loss_units
            &&& w.estimated_coverage_risk_pct >= raw_coverage_gap_pct(
                raw.total_hash_work,
                raw.crosslink_participating_hash_work,
            )
            &&& w.estimated_round_failure_rate_pct >= raw_round_failure_pct(
                raw.total_tenderlink_rounds,
                raw.failed_tenderlink_rounds,
            )
        }),
{
}

/// More Crosslink-participating work, all else equal, keeps a valid window
/// valid and never raises the selected sigma.
pub proof fn lemma_more_participation_never_raises_sigma(
    params: DynamicSigmaParameters,
    window: DynamicSigmaTelemetryWindow,
    more: DynamicSigmaTelemetryWindow,
)
    requires
        params_error(params) is None,
        window_error(window) is None,
        more == (DynamicSigmaTelemetryWindow {
            crosslink_participating_hash_work: more.crosslink_participating_hash_work,
            ..window
        }),
        window.crosslink_participating_hash_work <= more.crosslink_participating_hash_work
            <= window.total_hash_work,
    ensures
        window_error(more) is None,
        spec_decision(params, more).sigma <= spec_decision(params, window).sigma,
{
    let total = window.total_hash_work;
    lemma_ceil_div_monotone(
        (total - more.crosslink_participating_hash_work) * 100,
        (total - window.crosslink_participating_hash_work) * 100,
        total as int,
    );
}

/// Rollback risk never grows with depth on a monotone curve.
proof fn lemma_rollback_risk_antitone(
    params: DynamicSigmaParameters,
    window: DynamicSigmaTelemetryWindow,
    lo: u64,
    hi: u64,
)
    requires
        window_error(window) is None,
        lo <= hi,
    ensures
        spec_rollback_risk_ppm_at_sigma(params, window, hi) <= spec_rollback_risk_ppm_at_sigma(
            params,
            window,
            lo,
        ),
{
}

/// Meeting the economic target at some depth keeps it met at every greater depth.
proof fn lemma_economic_target_upward_closed(
    params: DynamicSigmaParameters,
    window: DynamicSigmaTelemetryWindow,
    lo: u64,
    hi: u64,
)
    requires
        window_error(window) is None,
        lo <= hi,
        spec_economic_target_satisfied_at_sigma(params, window, lo),
    ensures
        spec_economic_target_satisfied_at_sigma(params, window, hi),
{
    lemma_rollback_risk_antitone(params, window, lo, hi);
    let r_lo = spec_rollback_risk_ppm_at_sigma(params, window, lo) as int;
    let r_hi = spec_rollback_risk_ppm_at_sigma(params, window, hi) as int;
    let v = window.value_at_risk_units as int;
    assert(r_hi * v <= r_lo * v) by (nonlinear_arith)
        requires
            0 <= r_hi <= r_lo,
            v >= 0,
    ;
}

/// The decision reports the economic target as satisfied exactly when the
/// target can be met at the maximum sigma.
pub proof fn lemma_economic_status_iff_reachable_at_max(
    params: DynamicSigmaParameters,
    window: DynamicSigmaTelemetryWindow,
)
    requires
        params_error(params) is None,
        window_error(window) is None,
    ensures
        (spec_decision(params, window).economic_target_status
            == EconomicTargetStatus::TargetSatisfied) <==> spec_economic_target_satisfied_at_sigma(
            params,
            window,
            params.max_sigma,
        ),
{
    let d = spec_decision(params, window);
    lemma_sigma_is_most_conservative_floor(params, window);
    if spec_economic_target_satisfied_at_sigma(params, window, d.sigma) {
        lemma_economic_target_upward_closed(params, window, d.sigma, params.max_sigma);
    }
    if spec_economic_target_satisfied_at_sigma(params, window, params.max_sigma) {
        let e = d.economic_floor;
        assert(spec_economic_target_satisfied_at_sigma(params, window, e));
        lemma_economic_target_upward_closed(params, window, e, d.sigma);
    }
}

/// Once the raw counters are acceptable, deriving a window can only fail on a
/// non-monotone rollback-risk curve: the derived estimates are conservative by
/// construction.
pub proof fn lemma_into_window_only_rejects_nonmonotone_curve(
    raw: DynamicSigmaRawTelemetry,
    margins: TelemetryEstimateMargins,
)
    requires
        counters_error(
            raw.total_hash_work,
            raw.crosslink_participating_hash_work,
            raw.total_tenderlink_rounds,
            raw.failed_tenderlink_rounds,
        ) is None,
    ensures
        spec_into_window(raw, margins) is Ok || spec_into_window(raw, margins)->Err_0
            == DynamicSigmaError::RollbackRiskCurveNotMonotone,
{
    lemma_ceil_ratio_pct_bound(
        raw.total_hash_work - raw.crosslink_participating_hash_work,
        raw.total_hash_work as int,
    );
    lemma_ceil_ratio_pct_bound(
        raw.failed_tenderlink_rounds as int,
        raw.total_tenderlink_rounds as int,
    );
}

/// A window derived from raw counters passes window validation: its counters
/// are consistent, both estimates are at least the rounded-up raw percentages,
/// and the rollback-risk curve does not increase; so with valid parameters
/// the controller selects a sigma for it.
pub proof fn lemma_derived_window_validates(
    params: DynamicSigmaParameters,
    raw: DynamicSigmaRawTelemetry,
    margins: TelemetryEstimateMargins,
)
    requires
        spec_into_window(raw, margins) is Ok,
    ensures
        ({
            let w = spec_into_window(raw, margins)->Ok_0;
            &&& window_error(w) is None
            &&& w.total_hash_work > 0
            &&& w.crosslink_participating_hash_work <= w.total_hash_work
            &&& w.total_tenderlink_rounds > 0
            &&& w.failed_tenderlink_rounds <= w.total_tenderlink_rounds
            &&& w.estimated_coverage_risk_pct >= raw_coverage_gap_pct(
                w.total_hash_work,
                w.crosslink_participating_hash_work,
            )
            &&& w.estimated_round_failure_rate_pct >= raw_round_failure_pct(
                w.total_tenderlink_rounds,
                w.failed_tenderlink_rounds,
            )
            &&& w.rollback_risk.base_sigma_ppm >= w.rollback_risk.raised_sigma_ppm
            &&& w.rollback_risk.raised_sigma_ppm >= w.rollback_risk.max_sigma_ppm
            &&& params_error(params) is None ==> spec_select_dynamic_sigma(params, w)
                == Ok::<DynamicSigmaDecision, DynamicSigmaError>(spec_decision(params, w))
        }),
{
}

/// Valid evidence never selects a sigma below the controller's floors.
pub proof fn lemma_valid_evidence_meets_every_floor(
    params: DynamicSigmaParameters,
    evidence: DynamicSigmaProposalEvidence,
)
    requires
        spec_validate_evidence(params, evidence) is Ok,
    ensures
        ({
            let d = spec_validate_evidence(params, evidence)->Ok_0;
            &&& on_ladder(params, evidence.selected_sigma)
            &&& evidence.selected_sigma >= d.hash_participation_floor
            &&& evidence.selected_sigma >= d.reorg_floor
            &&& evidence.selected_sigma >= d.risk_score_floor
            &&& evidence.selected_sigma >= d.economic_floor
        }),
{
    let window = spec_into_window(evidence.raw_telemetry, evidence.margins)->Ok_0;
    lemma_sigma_is_most_conservative_floor(params, window);
}

} // verus!
