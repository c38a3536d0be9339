use zebra_crosslink::dynamic_sigma::{
    ceil_mul_div, ceil_ratio_pct, expected_loss_within_budget, prototype_dynamic_sigma_parameters,
    saturating_pct_add, select_dynamic_sigma, validate_dynamic_sigma_evidence,
    DynamicSigmaDecision, DynamicSigmaError, DynamicSigmaEvidenceError, DynamicSigmaParameters,
    DynamicSigmaProposalEvidence, DynamicSigmaRawTelemetry, DynamicSigmaTelemetryWindow,
    EconomicTargetStatus, HashParticipationStatus, RollbackRiskCurve, TelemetryEstimateMargins,
};

fn params() -> DynamicSigmaParameters {
    DynamicSigmaParameters {
        base_sigma: 1,
        raised_sigma: 3,
        max_sigma: 6,
        target_hash_participation_pct: 67,
        critical_hash_participation_pct: 50,
        max_acceptable_rollback_risk_ppm: 100,
        coverage_risk_weight: 2,
        round_failure_risk_weight: 3,
        block_interval_variance_risk_weight: 2,
        reorg_depth_risk_weight: 60,
        risk_score_raised_threshold: 100,
        risk_score_max_threshold: 220,
    }
}

#[allow(clippy::too_many_arguments)]
fn window(
    participating_hash_work: u128,
    failed_rounds: u64,
    coverage_risk_pct: u8,
    round_failure_rate_pct: u8,
    block_interval_variance_pct: u8,
    reorg_depth: u64,
    rollback_risk: RollbackRiskCurve,
    value_at_risk_units: u128,
    max_acceptable_expected_loss_units: u128,
) -> DynamicSigmaTelemetryWindow {
    DynamicSigmaTelemetryWindow {
        total_hash_work: 100,
        crosslink_participating_hash_work: participating_hash_work,
        total_tenderlink_rounds: 100,
        failed_tenderlink_rounds: failed_rounds,
        estimated_coverage_risk_pct: coverage_risk_pct,
        estimated_round_failure_rate_pct: round_failure_rate_pct,
        measured_block_interval_variance_pct: block_interval_variance_pct,
        measured_observed_reorg_depth: reorg_depth,
        rollback_risk,
        value_at_risk_units,
        max_acceptable_expected_loss_units,
    }
}

fn decide(window: DynamicSigmaTelemetryWindow) -> DynamicSigmaDecision {
    select_dynamic_sigma(params(), window).expect("fixture telemetry should be valid")
}

fn raw_telemetry(participating_hash_work: u128, failed_rounds: u64) -> DynamicSigmaRawTelemetry {
    DynamicSigmaRawTelemetry {
        total_hash_work: 100,
        crosslink_participating_hash_work: participating_hash_work,
        total_tenderlink_rounds: 100,
        failed_tenderlink_rounds: failed_rounds,
        measured_block_interval_variance_pct: 10,
        measured_observed_reorg_depth: 0,
        rollback_risk: RollbackRiskCurve {
            base_sigma_ppm: 80,
            raised_sigma_ppm: 20,
            max_sigma_ppm: 2,
        },
        value_at_risk_units: 1000,
        max_acceptable_expected_loss_units: 100,
    }
}

fn curve(base: u64, raised: u64, max: u64) -> RollbackRiskCurve {
    RollbackRiskCurve {
        base_sigma_ppm: base,
        raised_sigma_ppm: raised,
        max_sigma_ppm: max,
    }
}

#[test]
fn raw_observation_counters_build_conservative_window() {
    let telemetry = raw_telemetry(63, 15)
        .into_window(TelemetryEstimateMargins {
            coverage_risk_margin_pct: 2,
            round_failure_margin_pct: 3,
        })
        .expect("raw telemetry should build a window");

    assert_eq!(telemetry.estimated_coverage_risk_pct, 39);
    assert_eq!(telemetry.estimated_round_failure_rate_pct, 18);
    assert_eq!(telemetry.crosslink_participating_hash_work, 63);
    assert_eq!(telemetry.failed_tenderlink_rounds, 15);
}

#[test]
fn raw_observation_estimates_saturate_at_one_hundred_percent() {
    let telemetry = raw_telemetry(0, 100)
        .into_window(TelemetryEstimateMargins {
            coverage_risk_margin_pct: 5,
            round_failure_margin_pct: 5,
        })
        .expect("raw telemetry should build a saturated window");

    assert_eq!(telemetry.estimated_coverage_risk_pct, 100);
    assert_eq!(telemetry.estimated_round_failure_rate_pct, 100);
}

#[test]
fn raw_observation_window_feeds_dynamic_sigma_controller() {
    let telemetry = raw_telemetry(63, 0)
        .into_window(TelemetryEstimateMargins::default())
        .expect("raw telemetry should build a window");
    let decision = decide(telemetry);

    assert_eq!(decision.hash_participation_floor, 3);
    assert_eq!(decision.sigma, 3);
}

#[test]
fn matches_quint_telemetry_fixture_windows() {
    let fixtures = [
        (
            window(90, 0, 10, 0, 5, 0, curve(40, 10, 1), 1000, 100),
            1,
            HashParticipationStatus::Healthy,
            EconomicTargetStatus::TargetSatisfied,
        ),
        (
            window(63, 0, 37, 0, 10, 0, curve(80, 20, 2), 1000, 100),
            3,
            HashParticipationStatus::Degraded,
            EconomicTargetStatus::TargetSatisfied,
        ),
        (
            window(75, 15, 25, 15, 15, 0, curve(80, 25, 3), 1000, 100),
            3,
            HashParticipationStatus::Healthy,
            EconomicTargetStatus::TargetSatisfied,
        ),
        (
            window(90, 0, 10, 0, 5, 0, curve(250, 80, 10), 1000, 100),
            3,
            HashParticipationStatus::Healthy,
            EconomicTargetStatus::TargetSatisfied,
        ),
        (
            window(45, 0, 55, 0, 0, 0, curve(500, 250, 70), 1000, 100),
            6,
            HashParticipationStatus::Critical,
            EconomicTargetStatus::TargetSatisfied,
        ),
        (
            window(90, 0, 10, 0, 5, 0, curve(500, 180, 70), 1000, 100),
            6,
            HashParticipationStatus::Healthy,
            EconomicTargetStatus::TargetSatisfied,
        ),
        (
            window(90, 0, 10, 0, 5, 0, curve(500, 300, 120), 1000, 100),
            6,
            HashParticipationStatus::Healthy,
            EconomicTargetStatus::TargetUnreachableAtMax,
        ),
        (
            window(90, 0, 10, 0, 5, 3, curve(400, 180, 60), 1000, 100),
            6,
            HashParticipationStatus::Healthy,
            EconomicTargetStatus::TargetSatisfied,
        ),
        (
            window(90, 0, 10, 0, 5, 0, curve(80, 5, 1), 100000, 1),
            3,
            HashParticipationStatus::Healthy,
            EconomicTargetStatus::TargetSatisfied,
        ),
    ];

    for (index, (telemetry, expected_sigma, expected_status, expected_economic_status)) in
        fixtures.into_iter().enumerate()
    {
        let decision = decide(telemetry);

        assert_eq!(decision.sigma, expected_sigma, "fixture window {index}");
        assert_eq!(
            decision.hash_participation_status, expected_status,
            "fixture window {index}"
        );
        assert_eq!(
            decision.economic_target_status, expected_economic_status,
            "fixture window {index}"
        );
    }
}

#[test]
fn hash_work_participation_raises_sigma() {
    let decision = decide(window(63, 0, 37, 0, 10, 0, curve(80, 20, 2), 1000, 100));

    assert_eq!(decision.hash_participation_floor, 3);
    assert_eq!(decision.sigma, 3);
    assert_eq!(
        decision.hash_participation_status,
        HashParticipationStatus::Degraded
    );
}

#[test]
fn critical_hash_work_participation_forces_max_sigma() {
    let decision = decide(window(45, 0, 55, 0, 0, 0, curve(500, 250, 70), 1000, 100));

    assert_eq!(decision.hash_participation_floor, 6);
    assert_eq!(decision.sigma, 6);
    assert_eq!(
        decision.hash_participation_status,
        HashParticipationStatus::Critical
    );
}

#[test]
fn expected_loss_budget_raises_sigma_even_when_ppm_target_is_met() {
    let decision = decide(window(90, 0, 10, 0, 5, 0, curve(80, 5, 1), 100000, 1));

    assert_eq!(decision.economic_floor, 3);
    assert_eq!(decision.sigma, 3);
    assert_eq!(
        decision.economic_target_status,
        EconomicTargetStatus::TargetSatisfied
    );
}

#[test]
fn rejects_nonconservative_coverage_risk_estimate() {
    let mut telemetry = window(63, 0, 36, 0, 10, 0, curve(80, 20, 2), 1000, 100);
    telemetry.estimated_coverage_risk_pct = 36;

    assert_eq!(
        select_dynamic_sigma(params(), telemetry),
        Err(DynamicSigmaError::CoverageRiskEstimateTooLow)
    );
}

#[test]
fn rejects_nonconservative_round_failure_estimate() {
    let telemetry = window(75, 15, 25, 14, 15, 0, curve(80, 25, 3), 1000, 100);

    assert_eq!(
        select_dynamic_sigma(params(), telemetry),
        Err(DynamicSigmaError::RoundFailureEstimateTooLow)
    );
}

#[test]
fn rejects_nonmonotone_rollback_risk_curve() {
    let telemetry = window(90, 0, 10, 0, 5, 0, curve(40, 50, 1), 1000, 100);

    assert_eq!(
        select_dynamic_sigma(params(), telemetry),
        Err(DynamicSigmaError::RollbackRiskCurveNotMonotone)
    );
}

#[test]
fn ceil_mul_div_rounds_up_exact_values() {
    assert_eq!(ceil_mul_div(37, 100, 100), 37);
    assert_eq!(ceil_mul_div(1, 100, 3), 34);
    assert_eq!(ceil_mul_div(250, 67, 100), 168);
    assert_eq!(ceil_mul_div(u128::MAX, 1, 1), u128::MAX);
    assert_eq!(ceil_ratio_pct(1, 3), 34);
    assert_eq!(ceil_ratio_pct(3, 3), 100);
    assert_eq!(ceil_ratio_pct(0, 7), 0);
}

#[test]
fn saturating_pct_add_caps_at_one_hundred() {
    assert_eq!(saturating_pct_add(40, 2), 42);
    assert_eq!(saturating_pct_add(99, 5), 100);
    assert_eq!(saturating_pct_add(200, 200), 100);
}

#[test]
fn expected_loss_budget_handles_overflow_conservatively() {
    assert!(expected_loss_within_budget(80, 1000, 1));
    assert!(!expected_loss_within_budget(80, 100_000, 1));
    assert!(!expected_loss_within_budget(u128::MAX, 2, u128::MAX));
    assert!(expected_loss_within_budget(1, 1, u128::MAX));
}

#[test]
fn each_parameter_error_is_reported() {
    let mut p = params();
    p.raised_sigma = 1;
    let w = window(90, 0, 10, 0, 5, 0, curve(40, 10, 1), 1000, 100);
    assert_eq!(
        select_dynamic_sigma(p, w),
        Err(DynamicSigmaError::InvalidSigmaLadder)
    );
    let mut p = params();
    p.target_hash_participation_pct = 101;
    assert_eq!(
        select_dynamic_sigma(p, w),
        Err(DynamicSigmaError::InvalidHashParticipationThresholds)
    );
    let mut p = params();
    p.risk_score_raised_threshold = p.risk_score_max_threshold;
    assert_eq!(
        select_dynamic_sigma(p, w),
        Err(DynamicSigmaError::InvalidRiskScoreThresholds)
    );
}

#[test]
fn each_counter_error_is_reported() {
    let margins = TelemetryEstimateMargins::default();
    let mut raw = raw_telemetry(63, 0);
    raw.total_hash_work = 0;
    assert_eq!(
        raw.into_window(margins),
        Err(DynamicSigmaError::EmptyHashWorkWindow)
    );
    let raw = raw_telemetry(101, 0);
    assert_eq!(
        raw.into_window(margins),
        Err(DynamicSigmaError::ParticipatingHashWorkExceedsTotal)
    );
    let mut raw = raw_telemetry(63, 0);
    raw.total_tenderlink_rounds = 0;
    assert_eq!(
        raw.into_window(margins),
        Err(DynamicSigmaError::EmptyTenderlinkRoundWindow)
    );
    let raw = raw_telemetry(63, 101);
    assert_eq!(
        raw.into_window(margins),
        Err(DynamicSigmaError::FailedRoundsExceedTotal)
    );
    let mut raw = raw_telemetry(63, 0);
    raw.rollback_risk = curve(1, 2, 3);
    assert_eq!(
        raw.into_window(margins),
        Err(DynamicSigmaError::RollbackRiskCurveNotMonotone)
    );
}

#[test]
fn deep_reorg_forces_max_sigma() {
    let decision = decide(window(90, 0, 10, 0, 5, 3, curve(40, 10, 1), 1000, 100));
    assert_eq!(decision.reorg_floor, 6);
    assert_eq!(decision.sigma, 6);
}

#[test]
fn more_participation_never_raises_sigma_example() {
    let low = decide(window(45, 0, 55, 0, 0, 0, curve(40, 10, 1), 1000, 100));
    let high = decide(window(90, 0, 55, 0, 0, 0, curve(40, 10, 1), 1000, 100));
    assert!(high.sigma <= low.sigma);
}

fn evidence(participating_hash_work: u128, selected_sigma: u64) -> DynamicSigmaProposalEvidence {
    DynamicSigmaProposalEvidence {
        raw_telemetry: DynamicSigmaRawTelemetry {
            total_hash_work: 100,
            crosslink_participating_hash_work: participating_hash_work,
            total_tenderlink_rounds: 10,
            failed_tenderlink_rounds: 0,
            measured_block_interval_variance_pct: 0,
            measured_observed_reorg_depth: 0,
            rollback_risk: curve(80, 20, 2),
            value_at_risk_units: 1_000,
            max_acceptable_expected_loss_units: 1,
        },
        margins: TelemetryEstimateMargins {
            coverage_risk_margin_pct: 2,
            round_failure_margin_pct: 0,
        },
        selected_sigma,
    }
}

#[test]
fn evidence_validation_checks_ladder_and_floor() {
    let p = prototype_dynamic_sigma_parameters();
    let decision = validate_dynamic_sigma_evidence(p, evidence(63, 3)).expect("valid evidence");
    assert_eq!(decision.sigma, 3);
    assert!(validate_dynamic_sigma_evidence(p, evidence(63, 6)).is_ok());
    assert_eq!(
        validate_dynamic_sigma_evidence(p, evidence(63, 1)),
        Err(DynamicSigmaEvidenceError::SelectedSigmaBelowRequired {
            selected: 1,
            required: 3
        })
    );
    assert_eq!(
        validate_dynamic_sigma_evidence(p, evidence(63, 4)),
        Err(DynamicSigmaEvidenceError::SelectedSigmaNotOnLadder { selected: 4 })
    );
    assert_eq!(
        validate_dynamic_sigma_evidence(p, evidence(101, 3)),
        Err(DynamicSigmaEvidenceError::Controller(
            DynamicSigmaError::ParticipatingHashWorkExceedsTotal
        ))
    );
}
