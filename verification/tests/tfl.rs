use zebra_crosslink::chain::{
    BcBlockHeader, BftBlock, DynamicSigmaBftBlockPayload, DYNAMIC_SIGMA_BFT_BLOCK_PAYLOAD_MAGIC,
};
use zebra_crosslink::dynamic_sigma::{
    evidence_fits_check, prototype_dynamic_sigma_parameters, DynamicSigmaProposalEvidence, DynamicSigmaRawTelemetry,
    RollbackRiskCurve, TelemetryEstimateMargins,
};
use zebra_crosslink::fat_pointer::{
    fat_pointer_has_roster_quorum, FatPointerSignature2, FatPointerToBftBlock2, MalValidator,
};
use zebra_crosslink::tfl::{
    block_hash_unique_chars_n, decode_fixed_sigma_tenderlink_payload, decode_tenderlink_payload,
    dynamic_sigma_params_from_config, fat_pointer_to_block_at_height,
    finality_candidate_height_at_depth, payload_evidence_fits_check,
    proposal_candidate_height_matches_declared_height,
    proposal_status_against_current_stream, tfl_activation_height, BlockHeight, Config,
    TenderlinkPayloadDecodeError, TmStatus,
};

fn test_header(previous_block_hash: [u8; 32]) -> BcBlockHeader {
    BcBlockHeader {
        version: 4,
        previous_block_hash,
        merkle_root: [0; 32],
        commitment_bytes: [0; 32],
        time: 1_700_000_000,
        difficulty_threshold: u32::MAX,
        nonce: [0; 32],
        solution: vec![0; 1344],
        fat_pointer_to_bft_block: FatPointerToBftBlock2::null(),
    }
}

fn dynamic_sigma_evidence(
    participating_hash_work: u128,
    selected_sigma: u64,
) -> DynamicSigmaProposalEvidence {
    DynamicSigmaProposalEvidence {
        raw_telemetry: DynamicSigmaRawTelemetry {
            total_hash_work: 100,
            crosslink_participating_hash_work: participating_hash_work,
            total_tenderlink_rounds: 10,
            failed_tenderlink_rounds: 0,
            measured_block_interval_variance_pct: 0,
            measured_observed_reorg_depth: 0,
            rollback_risk: RollbackRiskCurve {
                base_sigma_ppm: 20,
                raised_sigma_ppm: 10,
                max_sigma_ppm: 2,
            },
            value_at_risk_units: 1_000,
            max_acceptable_expected_loss_units: 1,
        },
        margins: TelemetryEstimateMargins {
            coverage_risk_margin_pct: 2,
            round_failure_margin_pct: 0,
        },
        selected_sigma,
    }
}

#[test]
fn proposal_status_against_current_stream_reports_stale_on_stream_change() {
    let proposal = (BlockHeight(10), [1; 32]);

    assert_eq!(
        proposal_status_against_current_stream(proposal, proposal),
        TmStatus::Pass
    );
    assert_eq!(
        proposal_status_against_current_stream(proposal, (BlockHeight(11), [1; 32])),
        TmStatus::Stale
    );
    assert_eq!(
        proposal_status_against_current_stream(proposal, (BlockHeight(10), [2; 32])),
        TmStatus::Stale
    );
}

#[test]
fn fat_pointer_roster_quorum_rejects_unknown_signers() {
    let roster = vec![
        MalValidator::new([1; 32], 1),
        MalValidator::new([2; 32], 1),
        MalValidator::new([3; 32], 1),
        MalValidator::new([4; 32], 1),
    ];
    let fat_pointer = FatPointerToBftBlock2 {
        vote_for_block_without_finalizer_public_key: [0; 44],
        signatures: vec![
            FatPointerSignature2 {
                public_key: [9; 32],
                vote_signature: [0; 64],
            },
            FatPointerSignature2 {
                public_key: [8; 32],
                vote_signature: [0; 64],
            },
            FatPointerSignature2 {
                public_key: [7; 32],
                vote_signature: [0; 64],
            },
        ],
    };

    assert!(!fat_pointer_has_roster_quorum(&fat_pointer, &roster));
}

#[test]
fn fat_pointer_roster_quorum_accepts_known_signers_above_two_thirds() {
    let roster = vec![
        MalValidator::new([1; 32], 1),
        MalValidator::new([2; 32], 1),
        MalValidator::new([3; 32], 1),
        MalValidator::new([4; 32], 1),
    ];
    let signature = |key: u8| FatPointerSignature2 {
        public_key: [key; 32],
        vote_signature: [0; 64],
    };
    let three = FatPointerToBftBlock2 {
        vote_for_block_without_finalizer_public_key: [0; 44],
        signatures: vec![signature(1), signature(2), signature(3)],
    };
    let two = FatPointerToBftBlock2 {
        vote_for_block_without_finalizer_public_key: [0; 44],
        signatures: vec![signature(1), signature(2)],
    };

    assert!(fat_pointer_has_roster_quorum(&three, &roster));
    assert!(!fat_pointer_has_roster_quorum(&two, &roster));
}

#[test]
fn proposal_candidate_height_rejects_mismatched_declared_height() {
    assert!(proposal_candidate_height_matches_declared_height(
        10,
        BlockHeight(10)
    ));
    assert!(!proposal_candidate_height_matches_declared_height(
        9,
        BlockHeight(10)
    ));
}

#[test]
fn finality_candidate_height_at_depth_subtracts_selected_sigma() {
    assert_eq!(
        finality_candidate_height_at_depth(BlockHeight(10), 3),
        Some(BlockHeight(7))
    );
}

#[test]
fn finality_candidate_height_at_depth_rejects_underflow() {
    assert_eq!(finality_candidate_height_at_depth(BlockHeight(2), 3), None);
}

#[test]
fn finality_candidate_height_at_depth_accepts_genesis_and_rejects_huge_depth() {
    assert_eq!(
        finality_candidate_height_at_depth(BlockHeight(3), 3),
        Some(BlockHeight(0))
    );
    assert_eq!(
        finality_candidate_height_at_depth(BlockHeight(10), u64::MAX),
        None
    );
}

#[test]
fn block_height_saturating_subtraction_stays_in_range() {
    assert_eq!(BlockHeight(10).sat_sub(3), BlockHeight(7));
    assert_eq!(BlockHeight(2).sat_sub(3), BlockHeight(0));
    assert_eq!(BlockHeight(5).sat_sub(-5), BlockHeight(10));
    assert_eq!(BlockHeight(2_147_483_640).sat_sub(-100), BlockHeight(0));
    assert_eq!(tfl_activation_height(), BlockHeight(2000));
}

#[test]
fn fixed_sigma_tenderlink_payload_decoder_accepts_legacy_block() {
    let block = BftBlock {
        version: 1,
        height: 1,
        previous_block_fat_ptr: FatPointerToBftBlock2::null(),
        finalization_candidate_height: 10,
        headers: Vec::new(),
    };
    let encoded = block.zcash_serialize_to_vec();

    let decoded = decode_fixed_sigma_tenderlink_payload(encoded.as_slice())
        .expect("legacy fixed-sigma payload should decode");

    assert_eq!(decoded, block);
}

#[test]
fn fixed_sigma_tenderlink_payload_decoder_rejects_dynamic_tag_until_enabled() {
    assert_eq!(
        decode_fixed_sigma_tenderlink_payload(&DYNAMIC_SIGMA_BFT_BLOCK_PAYLOAD_MAGIC),
        Err(TenderlinkPayloadDecodeError::DynamicSigmaUnsupported)
    );
}

#[test]
fn tenderlink_payload_decoder_rejects_truncated_bytes() {
    assert_eq!(
        decode_tenderlink_payload(&Config::default(), &[1, 0, 0]),
        Err(TenderlinkPayloadDecodeError::Invalid)
    );
}

#[test]
fn tenderlink_payload_decoder_rejects_dynamic_payload_by_default() {
    let headers = vec![test_header([0; 32])];
    let payload = DynamicSigmaBftBlockPayload::try_from_with_evidence(
        prototype_dynamic_sigma_parameters(),
        dynamic_sigma_evidence(90, 1),
        1,
        FatPointerToBftBlock2::null(),
        10,
        headers,
    )
    .expect("valid dynamic-sigma evidence should build a payload");
    let encoded = payload.zcash_serialize_to_vec();

    assert_eq!(
        decode_tenderlink_payload(&Config::default(), encoded.as_slice()),
        Err(TenderlinkPayloadDecodeError::DynamicSigmaUnsupported)
    );
}

#[test]
fn tenderlink_payload_decoder_accepts_dynamic_payload_when_prototype_enabled() {
    let mut config = Config::default();
    config.dynamic_sigma_prototype = true;
    let headers = vec![test_header([0; 32])];
    let payload = DynamicSigmaBftBlockPayload::try_from_with_evidence(
        prototype_dynamic_sigma_parameters(),
        dynamic_sigma_evidence(90, 1),
        1,
        FatPointerToBftBlock2::null(),
        10,
        headers,
    )
    .expect("valid dynamic-sigma evidence should build a payload");
    let encoded = payload.zcash_serialize_to_vec();

    let decoded = decode_tenderlink_payload(&config, encoded.as_slice())
        .expect("dynamic payload should decode when prototype mode is enabled");

    assert_eq!(
        decoded.zcash_serialize_to_vec(),
        payload.block.zcash_serialize_to_vec(),
    );
}

#[test]
fn tenderlink_payload_decoder_rejects_hash_participation_below_selected_sigma() {
    let mut config = Config::default();
    config.dynamic_sigma_prototype = true;
    let payload = DynamicSigmaBftBlockPayload {
        evidence: dynamic_sigma_evidence(63, 1),
        block: BftBlock {
            version: 1,
            height: 1,
            previous_block_fat_ptr: FatPointerToBftBlock2::null(),
            finalization_candidate_height: 10,
            headers: vec![test_header([0; 32])],
        },
    };
    let encoded = payload.zcash_serialize_to_vec();

    assert_eq!(
        decode_tenderlink_payload(&config, encoded.as_slice()),
        Err(TenderlinkPayloadDecodeError::DynamicSigmaInvalid)
    );
}

#[test]
fn dynamic_sigma_params_follow_the_prototype_flag() {
    let mut config = Config::default();
    assert_eq!(dynamic_sigma_params_from_config(&config), None);
    config.dynamic_sigma_prototype = true;
    assert_eq!(
        dynamic_sigma_params_from_config(&config),
        Some(prototype_dynamic_sigma_parameters())
    );
}

#[test]
fn fat_pointer_to_block_at_height_walks_previous_pointers() {
    let mut tip_pointer = FatPointerToBftBlock2::null();
    tip_pointer.vote_for_block_without_finalizer_public_key[0] = 7;
    let mut second_pointer = FatPointerToBftBlock2::null();
    second_pointer.vote_for_block_without_finalizer_public_key[0] = 5;
    let block = |prev: FatPointerToBftBlock2, height: u32| BftBlock {
        version: 1,
        height,
        previous_block_fat_ptr: prev,
        finalization_candidate_height: 10,
        headers: Vec::new(),
    };
    let blocks = vec![
        block(FatPointerToBftBlock2::null(), 1),
        block(second_pointer.clone(), 2),
    ];

    assert_eq!(fat_pointer_to_block_at_height(&blocks, &tip_pointer, 0), None);
    assert_eq!(
        fat_pointer_to_block_at_height(&blocks, &tip_pointer, 1),
        Some(second_pointer)
    );
    assert_eq!(
        fat_pointer_to_block_at_height(&blocks, &tip_pointer, 2),
        Some(tip_pointer.clone())
    );
    assert_eq!(fat_pointer_to_block_at_height(&blocks, &tip_pointer, 3), None);
}

#[test]
fn block_hash_unique_chars_counts_distinguishing_nibbles() {
    assert_eq!(block_hash_unique_chars_n(&[]), 1);
    assert_eq!(block_hash_unique_chars_n(&[[0; 32], [1; 32]]), 1);
    let mut a = [0u8; 32];
    let mut b = [0u8; 32];
    a[0] = 0x01;
    b[0] = 0x11;
    assert_eq!(block_hash_unique_chars_n(&[a, b]), 2);
    let mut c = [0u8; 32];
    c[1] = 0x01;
    assert_eq!(block_hash_unique_chars_n(&[[0; 32], c]), 3);
}

#[test]
fn evidence_fit_checks_flag_arithmetic_overflow() {
    let params = prototype_dynamic_sigma_parameters();
    assert!(evidence_fits_check(params, dynamic_sigma_evidence(90, 1)));

    let mut huge_gap = dynamic_sigma_evidence(1, 1);
    huge_gap.raw_telemetry.total_hash_work = u128::MAX;
    assert!(!evidence_fits_check(params, huge_gap));

    let mut heavy = params;
    heavy.reorg_depth_risk_weight = u64::MAX;
    heavy.coverage_risk_weight = u64::MAX;
    let mut deep = dynamic_sigma_evidence(90, 1);
    deep.raw_telemetry.measured_observed_reorg_depth = u64::MAX;
    assert!(!evidence_fits_check(heavy, deep));
    // Invalid parameters never reach the risk score.
    heavy.base_sigma = 0;
    assert!(evidence_fits_check(heavy, deep));
}

#[test]
fn payload_fit_check_only_inspects_enabled_dynamic_payloads() {
    let mut config = Config::default();
    let payload = DynamicSigmaBftBlockPayload::try_from_with_evidence(
        prototype_dynamic_sigma_parameters(),
        dynamic_sigma_evidence(90, 1),
        1,
        FatPointerToBftBlock2::null(),
        10,
        vec![test_header([0; 32])],
    )
    .expect("valid dynamic-sigma evidence should build a payload");
    let mut bad = payload.clone();
    bad.evidence.raw_telemetry.total_hash_work = u128::MAX;
    bad.evidence.raw_telemetry.crosslink_participating_hash_work = 1;
    let encoded = bad.zcash_serialize_to_vec();
    assert!(payload_evidence_fits_check(&config, &encoded));
    config.dynamic_sigma_prototype = true;
    assert!(!payload_evidence_fits_check(&config, &encoded));
    assert!(payload_evidence_fits_check(
        &config,
        &payload.zcash_serialize_to_vec()
    ));
    assert!(payload_evidence_fits_check(&config, &[1, 2, 3]));
}

#[test]
fn blocks_are_writable_with_equihash_sized_solutions() {
    let mut block = BftBlock {
        version: 1,
        height: 1,
        previous_block_fat_ptr: FatPointerToBftBlock2::null(),
        finalization_candidate_height: 10,
        headers: vec![test_header([0; 32])],
    };
    assert!(block.writable());
    block.headers[0].solution = vec![0; 36];
    assert!(block.writable());
    block.headers[0].solution = vec![0; 37];
    assert!(!block.writable());
}
