use zebra_crosslink::consensus_config::{
    Config, Halo2AccelBackend, Halo2AccelConfig, Halo2AccelMode, InnerConfig,
};
use zebra_crosslink::halo2_accel::{
    accel_config_from_bytes, batch_item_result, byte_at, clone_item_with_accel_config,
    flush_result_label, summarize_batch_items, DispatchBackend, DispatchConfig, Halo2AccelBuild,
    Halo2BatchAccelContext, Halo2DispatchStats, Halo2ItemError, Item,
};

#[test]
fn halo2_accel_defaults_are_safe() {
    let config = Config::default();

    assert!(!config.halo2_accel.enabled);
    assert_eq!(config.halo2_accel.backend, Halo2AccelBackend::Auto);
    assert_eq!(config.halo2_accel.mode, Halo2AccelMode::Cpu);
    assert_eq!(config.halo2_accel.min_batch_actions, 64);
    assert_eq!(config.halo2_accel.min_msm_size, 4096);
}

#[test]
fn halo2_accel_config_gates_candidate_batches() {
    let mut accel = Config::default().halo2_accel;
    accel.enabled = true;
    accel.min_batch_actions = 64;

    assert!(!accel.should_try_accel(63));
    accel.mode = Halo2AccelMode::Crosscheck;
    assert!(accel.should_try_accel(64));
    accel.mode = Halo2AccelMode::Cpu;
    assert!(!accel.should_try_accel(usize::MAX));
    assert_eq!(accel.backend.as_metric_label(), "auto");
    assert_eq!(
        Halo2AccelMode::ExperimentalAccept.as_metric_label(),
        "experimental-accept"
    );
}

#[test]
fn halo2_accel_labels_cover_every_variant() {
    assert_eq!(Halo2AccelBackend::Cuda.as_metric_label(), "cuda");
    assert_eq!(Halo2AccelBackend::Avx512.as_metric_label(), "avx512");
    assert_eq!(Halo2AccelMode::Cpu.as_metric_label(), "cpu");
    assert_eq!(Halo2AccelMode::Crosscheck.as_metric_label(), "crosscheck");
}

#[test]
fn inner_config_round_trips_through_config() {
    let mut config = Config::default();
    config.checkpoint_sync = false;
    config.halo2_accel.enabled = true;
    config.halo2_accel.min_msm_size = 8192;

    let inner = InnerConfig::from(config);
    assert!(!inner._debug_skip_parameter_preload);
    assert_eq!(Config::from(inner), config);
    assert_eq!(Config::from(InnerConfig::default()), Config::default());
}

#[test]
fn halo2_batch_accel_context_tracks_candidate_actions() {
    let mut config = Halo2AccelConfig {
        enabled: true,
        backend: Halo2AccelBackend::Cuda,
        mode: Halo2AccelMode::Crosscheck,
        min_batch_actions: 2,
        min_msm_size: 4096,
    };
    let mut context = Halo2BatchAccelContext::default();

    context.observe_actions(1, &config);
    assert_eq!(context.batch_actions, 1);
    assert_eq!(context.candidate_items, 0);
    assert_eq!(context.candidate_label(), "false");

    context.observe_actions(3, &config);
    assert_eq!(context.batch_actions, 4);
    assert_eq!(context.candidate_items, 1);
    assert_eq!(context.candidate_label(), "true");
    assert_eq!(context.backend_label(), "cuda");
    assert_eq!(context.mode_label(), "crosscheck");

    config.enabled = false;
    context.observe_actions(10, &config);
    assert_eq!(context.batch_actions, 14);
    assert_eq!(context.candidate_items, 1);
    assert_eq!(context.enabled_label(), "false");
}

fn candidate_context(mode: Halo2AccelMode) -> Halo2BatchAccelContext {
    let config = Halo2AccelConfig {
        enabled: true,
        backend: Halo2AccelBackend::Cuda,
        mode,
        min_batch_actions: 2,
        min_msm_size: 8192,
    };
    let mut context = Halo2BatchAccelContext::default();
    context.observe_actions(3, &config);
    context
}

#[test]
fn crosscheck_mode_accepts_the_cpu_result() {
    let build = Halo2AccelBuild {
        accel_verify: true,
        experimental_accept: false,
    };
    let context = candidate_context(Halo2AccelMode::Crosscheck);

    assert!(context.should_crosscheck(build, true));
    let outcome = context.resolve_result_after_crosscheck(false, true, build, true);
    assert!(outcome.accepted);
    assert!(outcome.crosscheck_mismatch);
    assert_eq!(outcome.accelerated_result, Some(false));
    assert_eq!(outcome.cpu_result, Some(true));
    assert_eq!(outcome.dispatch_stats, Halo2DispatchStats::default());
}

#[test]
fn experimental_accept_requires_build_feature_and_self_test() {
    let context = candidate_context(Halo2AccelMode::ExperimentalAccept);
    let full = Halo2AccelBuild {
        accel_verify: true,
        experimental_accept: true,
    };
    let no_accept = Halo2AccelBuild {
        accel_verify: true,
        experimental_accept: false,
    };

    assert!(context.should_experimental_accept(full, true));
    assert!(!context.should_crosscheck(full, true));
    assert!(context.resolve_result_without_crosscheck(true).accepted);
    assert!(context.accelerated_backend_self_test_passed(full, true));

    assert!(!context.should_experimental_accept(no_accept, true));
    assert!(context.should_crosscheck(no_accept, true));
    let outcome = context.resolve_result_after_crosscheck(false, true, no_accept, true);
    assert!(outcome.accepted);
    assert!(outcome.crosscheck_mismatch);

    assert!(!context.should_experimental_accept(full, false));
    assert!(context.should_crosscheck(full, false));
    assert!(!context.accelerated_backend_self_test_passed(full, false));
}

#[test]
fn current_build_never_accelerates() {
    let build = Halo2AccelBuild::current();
    let context = candidate_context(Halo2AccelMode::ExperimentalAccept);

    assert!(context.has_accel_candidate());
    assert!(!context.should_crosscheck(build, true));
    assert!(!context.should_experimental_accept(build, true));
    assert_eq!(context.compiled_label(build), "false");
}

#[test]
fn batch_summary_counts_actions_and_candidates() {
    let config = Halo2AccelConfig {
        enabled: true,
        backend: Halo2AccelBackend::Auto,
        mode: Halo2AccelMode::Crosscheck,
        min_batch_actions: 4,
        min_msm_size: 4096,
    };
    let items = vec![
        Item::new_with_accel_config(3, config),
        Item::new_with_accel_config(5, config),
        clone_item_with_accel_config(&Item::new(7), config),
        Item::new(9),
    ];
    let build = Halo2AccelBuild {
        accel_verify: true,
        experimental_accept: false,
    };

    let summary = summarize_batch_items(&items, build, true);
    assert_eq!(summary.batch_actions, 24);
    assert_eq!(summary.candidate_items, 2);
    assert!(summary.has_accel_candidate);
    // The last item carries the default CPU configuration.
    assert!(!summary.should_crosscheck);
    assert!(!summary.should_experimental_accept);

    let summary = summarize_batch_items(&items[..3], build, true);
    assert_eq!(summary.batch_actions, 15);
    assert!(summary.should_crosscheck);
    assert_eq!(Item::new(9).request_weight(), 9);
}

#[test]
fn empty_batch_summary_has_no_candidate() {
    let summary = summarize_batch_items(&[], Halo2AccelBuild::current(), true);
    assert_eq!(summary.batch_actions, 0);
    assert_eq!(summary.candidate_items, 0);
    assert!(!summary.has_accel_candidate);
    assert!(!summary.should_crosscheck);
}

#[test]
fn fuzz_bytes_decode_to_accel_config() {
    let data = [0u8, 1, 4, 5, 19, 10];
    assert_eq!(byte_at(&data, 4), 19);
    assert_eq!(byte_at(&data, 6), 0);

    let config = accel_config_from_bytes(&data);
    assert!(config.enabled);
    assert_eq!(config.backend, Halo2AccelBackend::Cuda);
    assert_eq!(config.mode, Halo2AccelMode::ExperimentalAccept);
    assert_eq!(config.min_batch_actions, 3);
    assert_eq!(config.min_msm_size, 1024);

    let empty = accel_config_from_bytes(&[]);
    assert!(!empty.enabled);
    assert_eq!(empty.backend, Halo2AccelBackend::Auto);
    assert_eq!(empty.mode, Halo2AccelMode::Cpu);
    assert_eq!(empty.min_batch_actions, 0);
    assert_eq!(empty.min_msm_size, 1);
}

#[test]
fn dispatch_configs_follow_candidacy_and_mode() {
    let context = candidate_context(Halo2AccelMode::Crosscheck);
    assert_eq!(context.requested_backend(), DispatchBackend::Cuda);
    assert_eq!(
        context.dispatch_config(),
        DispatchConfig {
            backend: DispatchBackend::Cuda,
            min_msm_size: 8192
        }
    );
    assert_eq!(
        context.cpu_dispatch_config(),
        DispatchConfig {
            backend: DispatchBackend::Cpu,
            min_msm_size: 8192
        }
    );
    let idle = Halo2BatchAccelContext::default();
    assert_eq!(idle.dispatch_config().backend, DispatchBackend::Cpu);
}

#[test]
fn batch_pair_outcome_attaches_stats_and_crosscheck() {
    let build = Halo2AccelBuild {
        accel_verify: true,
        experimental_accept: false,
    };
    let stats = Halo2DispatchStats {
        msm_candidate_points: 18,
        msm_fallbacks: 1,
    };
    let crosschecked = candidate_context(Halo2AccelMode::Crosscheck);
    let outcome = crosschecked.verify_batch_pair_outcome(build, true, true, Some(false), stats);
    assert!(!outcome.accepted);
    assert!(outcome.crosscheck_mismatch);
    assert_eq!(outcome.dispatch_stats, stats);
    assert_eq!(crosschecked.crosscheck_metric(&outcome), Some(("true", 1)));
    assert_eq!(crosschecked.dispatch_stats_metrics(stats), (Some(18), Some(1)));

    let plain = Halo2BatchAccelContext::default();
    let outcome = plain.verify_batch_pair_outcome(build, true, true, None, Halo2DispatchStats::default());
    assert!(outcome.accepted);
    assert_eq!(plain.crosscheck_metric(&outcome), None);
    assert_eq!(plain.dispatch_stats_metrics(stats), (None, None));
}

#[test]
fn flushing_hands_over_the_batch_context() {
    let mut context = candidate_context(Halo2AccelMode::Crosscheck);
    let taken = context.take();
    assert_eq!(taken.batch_actions, 3);
    assert_eq!(context, Halo2BatchAccelContext::default());

    let accepted = taken.resolve_result_without_crosscheck(true);
    assert_eq!(flush_result_label(Some(accepted)), "success");
    assert_eq!(flush_result_label(None), "failure");
    assert_eq!(batch_item_result(Some(true)), Ok(()));
    assert_eq!(batch_item_result(Some(false)), Err(Halo2ItemError::InvalidProofs));
    assert_eq!(batch_item_result(None), Err(Halo2ItemError::ResultDropped));
}

#[test]
fn halo2_errors_keep_constraint_system_failures() {
    assert_eq!(
        zebra_crosslink::halo2_accel::Halo2Error::from_plonk_failure(true),
        zebra_crosslink::halo2_accel::Halo2Error::ConstraintSystemFailure
    );
    assert_eq!(
        zebra_crosslink::halo2_accel::Halo2Error::from_plonk_failure(false),
        zebra_crosslink::halo2_accel::Halo2Error::Other
    );
}

#[test]
fn halo2_batch_accel_context_uses_scoped_dispatch_and_cpu_crosscheck_acceptance() {
    let build = Halo2AccelBuild {
        accel_verify: true,
        experimental_accept: false,
    };
    let config = Halo2AccelConfig {
        enabled: true,
        backend: Halo2AccelBackend::Cuda,
        mode: Halo2AccelMode::Crosscheck,
        min_batch_actions: 2,
        min_msm_size: 8192,
    };
    let mut context = Halo2BatchAccelContext::default();

    context.observe_actions(3, &config);

    assert!(context.should_crosscheck(build, false));
    assert_eq!(
        context.dispatch_config(),
        DispatchConfig {
            backend: DispatchBackend::Cuda,
            min_msm_size: 8192,
        }
    );

    let outcome = context.resolve_result_after_crosscheck(false, true, build, false);
    assert!(outcome.accepted);
    assert!(outcome.crosscheck_mismatch);
    assert_eq!(outcome.accelerated_result, Some(false));
    assert_eq!(outcome.cpu_result, Some(true));
}

#[test]
fn halo2_batch_accel_experimental_accept_requires_build_feature() {
    let config = Halo2AccelConfig {
        enabled: true,
        backend: Halo2AccelBackend::Cuda,
        mode: Halo2AccelMode::ExperimentalAccept,
        min_batch_actions: 2,
        min_msm_size: 8192,
    };
    let mut context = Halo2BatchAccelContext::default();

    context.observe_actions(3, &config);

    for experimental_accept in [false, true] {
        for self_test in [false, true] {
            let build = Halo2AccelBuild {
                accel_verify: true,
                experimental_accept,
            };
            if experimental_accept && self_test {
                assert!(context.should_experimental_accept(build, self_test));
                assert!(!context.should_crosscheck(build, self_test));
                assert!(context.resolve_result_without_crosscheck(true).accepted);
            } else {
                assert!(!context.should_experimental_accept(build, self_test));
                assert!(context.should_crosscheck(build, self_test));
                let outcome = context.resolve_result_after_crosscheck(false, true, build, self_test);
                assert!(outcome.accepted);
                assert!(outcome.crosscheck_mismatch);
            }
        }
    }
}

#[test]
fn halo2_batch_accel_experimental_accept_requires_backend_self_test() {
    let build = Halo2AccelBuild {
        accel_verify: true,
        experimental_accept: true,
    };
    let config = Halo2AccelConfig {
        enabled: true,
        backend: Halo2AccelBackend::Cuda,
        mode: Halo2AccelMode::ExperimentalAccept,
        min_batch_actions: 2,
        min_msm_size: 8192,
    };
    let mut context = Halo2BatchAccelContext::default();

    context.observe_actions(3, &config);

    let self_test = false;
    assert!(!context.should_experimental_accept(build, self_test));
    assert!(context.should_crosscheck(build, self_test));
    let outcome = context.resolve_result_after_crosscheck(false, true, build, self_test);
    assert!(outcome.accepted);
    assert!(outcome.crosscheck_mismatch);
}
