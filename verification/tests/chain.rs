use zebra_crosslink::chain::{
    prototype_parameters, BcBlockHeader, BftBlock, BftBlockAndFatPointerToIt, BftBlockPayload,
    DynamicSigmaBftBlockPayload, InvalidBftBlock, InvalidDynamicSigmaBftBlock,
    SerializationError, ZcashCrosslinkParameters, DYNAMIC_SIGMA_BFT_BLOCK_PAYLOAD_MAGIC,
};
use zebra_crosslink::dynamic_sigma::{
    DynamicSigmaEvidenceError, DynamicSigmaParameters, DynamicSigmaProposalEvidence,
    DynamicSigmaRawTelemetry, RollbackRiskCurve, TelemetryEstimateMargins,
};
use zebra_crosslink::fat_pointer::{FatPointerSignature2, FatPointerToBftBlock2};

fn test_header(previous_block_hash: [u8; 32]) -> BcBlockHeader {
    BcBlockHeader {
        version: 4,
        previous_block_hash,
        merkle_root: [0; 32],
        commitment_bytes: [0; 32],
        time: 1_700_000_000,
        difficulty_threshold: u32::MAX,
        nonce: [0; 32],
        solution: vec![0; 1344],
        fat_pointer_to_bft_block: FatPointerToBftBlock2::null(),
    }
}

fn dynamic_sigma_params() -> DynamicSigmaParameters {
    DynamicSigmaParameters {
        base_sigma: 1,
        raised_sigma: 3,
        max_sigma: 6,
        target_hash_participation_pct: 67,
        critical_hash_participation_pct: 50,
        max_acceptable_rollback_risk_ppm: 25,
        coverage_risk_weight: 2,
        round_failure_risk_weight: 3,
        block_interval_variance_risk_weight: 1,
        reorg_depth_risk_weight: 5,
        risk_score_raised_threshold: 60,
        risk_score_max_threshold: 100,
    }
}

fn dynamic_sigma_evidence(
    participating_hash_work: u128,
    selected_sigma: u64,
) -> DynamicSigmaProposalEvidence {
    DynamicSigmaProposalEvidence {
        raw_telemetry: DynamicSigmaRawTelemetry {
            total_hash_work: 100,
            crosslink_participating_hash_work: participating_hash_work,
            total_tenderlink_rounds: 10,
            failed_tenderlink_rounds: 0,
            measured_block_interval_variance_pct: 0,
            measured_observed_reorg_depth: 0,
            rollback_risk: RollbackRiskCurve {
                base_sigma_ppm: 80,
                raised_sigma_ppm: 20,
                max_sigma_ppm: 2,
            },
            value_at_risk_units: 1_000,
            max_acceptable_expected_loss_units: 1,
        },
        margins: TelemetryEstimateMargins {
            coverage_risk_margin_pct: 2,
            round_failure_margin_pct: 0,
        },
        selected_sigma,
    }
}

fn three_headers() -> Vec<BcBlockHeader> {
    vec![
        test_header([0; 32]),
        test_header([1; 32]),
        test_header([2; 32]),
    ]
}

#[test]
fn try_from_with_confirmation_depth_uses_selected_sigma() {
    let err = BftBlock::try_from_with_confirmation_depth(
        6,
        1,
        FatPointerToBftBlock2::null(),
        10,
        Vec::new(),
    )
    .expect_err("empty headers should not satisfy selected sigma 6");

    assert!(matches!(
        err,
        InvalidBftBlock::IncorrectConfirmationDepth {
            expected: 6,
            actual: 0,
        }
    ));
}

#[test]
fn try_from_keeps_using_fixed_parameter_sigma() {
    let params = ZcashCrosslinkParameters {
        bc_confirmation_depth_sigma: 3,
        finalization_gap_bound: 7,
    };
    let err = BftBlock::try_from(&params, 1, FatPointerToBftBlock2::null(), 10, Vec::new())
        .expect_err("empty headers should not satisfy fixed sigma 3");

    assert!(matches!(
        err,
        InvalidBftBlock::IncorrectConfirmationDepth {
            expected: 3,
            actual: 0,
        }
    ));
}

#[test]
fn try_from_with_confirmation_depth_accepts_matching_header_count() {
    let headers = vec![test_header([0; 32]), test_header([1; 32])];

    let block = BftBlock::try_from_with_confirmation_depth(
        2,
        1,
        FatPointerToBftBlock2::null(),
        10,
        headers.clone(),
    )
    .expect("matching selected sigma should be accepted");

    assert_eq!(block.headers, headers);
}

#[test]
fn try_from_with_dynamic_sigma_evidence_uses_selected_sigma() {
    let headers = three_headers();

    let block = BftBlock::try_from_with_dynamic_sigma_evidence(
        dynamic_sigma_params(),
        dynamic_sigma_evidence(63, 3),
        1,
        FatPointerToBftBlock2::null(),
        10,
        headers.clone(),
    )
    .expect("valid evidence and matching selected sigma depth should be accepted");

    assert_eq!(block.headers, headers);
}

#[test]
fn try_from_with_dynamic_sigma_evidence_rejects_below_required_sigma() {
    let err = BftBlock::try_from_with_dynamic_sigma_evidence(
        dynamic_sigma_params(),
        dynamic_sigma_evidence(63, 1),
        1,
        FatPointerToBftBlock2::null(),
        10,
        vec![test_header([0; 32])],
    )
    .expect_err("selected sigma below controller floor should be rejected");

    assert!(matches!(
        err,
        InvalidDynamicSigmaBftBlock::DynamicSigmaEvidence(
            DynamicSigmaEvidenceError::SelectedSigmaBelowRequired {
                selected: 1,
                required: 3,
            }
        )
    ));
}

#[test]
fn try_from_with_dynamic_sigma_evidence_requires_selected_header_depth() {
    let err = BftBlock::try_from_with_dynamic_sigma_evidence(
        dynamic_sigma_params(),
        dynamic_sigma_evidence(63, 6),
        1,
        FatPointerToBftBlock2::null(),
        10,
        three_headers(),
    )
    .expect_err("selected sigma 6 should require six headers");

    assert!(matches!(
        err,
        InvalidDynamicSigmaBftBlock::BftBlock(InvalidBftBlock::IncorrectConfirmationDepth {
            expected: 6,
            actual: 3,
        })
    ));
}

#[test]
fn dynamic_sigma_bft_block_payload_constructs_and_serializes() {
    let evidence = dynamic_sigma_evidence(63, 3);

    let payload = DynamicSigmaBftBlockPayload::try_from_with_evidence(
        dynamic_sigma_params(),
        evidence,
        1,
        FatPointerToBftBlock2::null(),
        10,
        three_headers(),
    )
    .expect("valid dynamic-sigma evidence should build a payload");

    let encoded = payload.zcash_serialize_to_vec();
    let decoded = DynamicSigmaBftBlockPayload::zcash_deserialize(encoded.as_slice())
        .expect("payload deserialization should succeed");

    assert!(encoded.starts_with(&DYNAMIC_SIGMA_BFT_BLOCK_PAYLOAD_MAGIC));
    assert_eq!(decoded.zcash_serialize_to_vec(), encoded);
    assert_eq!(decoded.evidence, evidence);
    assert_eq!(decoded.block.headers.len(), 3);
}

#[test]
fn dynamic_sigma_bft_block_payload_rejects_wrong_magic() {
    let payload = DynamicSigmaBftBlockPayload::try_from_with_evidence(
        dynamic_sigma_params(),
        dynamic_sigma_evidence(63, 3),
        1,
        FatPointerToBftBlock2::null(),
        10,
        three_headers(),
    )
    .expect("valid dynamic-sigma evidence should build a payload");
    let mut encoded = payload.zcash_serialize_to_vec();
    encoded[0] ^= 0xff;

    assert!(matches!(
        DynamicSigmaBftBlockPayload::zcash_deserialize(encoded.as_slice()),
        Err(SerializationError::InvalidDynamicSigmaMagic)
    ));
}

#[test]
fn dynamic_sigma_bft_block_payload_validates_constructed_payload() {
    let payload = DynamicSigmaBftBlockPayload::try_from_with_evidence(
        dynamic_sigma_params(),
        dynamic_sigma_evidence(63, 3),
        1,
        FatPointerToBftBlock2::null(),
        10,
        three_headers(),
    )
    .expect("valid dynamic-sigma evidence should build a payload");

    payload
        .validate(dynamic_sigma_params())
        .expect("constructed dynamic-sigma payload should validate");
}

#[test]
fn dynamic_sigma_bft_block_payload_validation_rejects_evidence_block_mismatch() {
    let mut payload = DynamicSigmaBftBlockPayload::try_from_with_evidence(
        dynamic_sigma_params(),
        dynamic_sigma_evidence(63, 3),
        1,
        FatPointerToBftBlock2::null(),
        10,
        three_headers(),
    )
    .expect("valid dynamic-sigma evidence should build a payload");
    payload.block.version = 2;

    assert!(matches!(
        payload.validate(dynamic_sigma_params()),
        Err(InvalidDynamicSigmaBftBlock::PayloadBlockMismatch)
    ));
}

#[test]
fn bft_block_payload_decodes_legacy_fixed_sigma_block() {
    let block = BftBlock::try_from_with_confirmation_depth(
        3,
        1,
        FatPointerToBftBlock2::null(),
        10,
        three_headers(),
    )
    .expect("matching fixed sigma depth should build a block");
    let encoded = block.zcash_serialize_to_vec();

    let decoded = BftBlockPayload::zcash_deserialize_from_slice(encoded.as_slice())
        .expect("fixed-sigma payload should decode");

    assert!(matches!(decoded, BftBlockPayload::FixedSigma(_)));
    assert_eq!(decoded.block().zcash_serialize_to_vec(), encoded);
}

#[test]
fn bft_block_payload_decodes_tagged_dynamic_sigma_payload() {
    let payload = DynamicSigmaBftBlockPayload::try_from_with_evidence(
        dynamic_sigma_params(),
        dynamic_sigma_evidence(63, 3),
        1,
        FatPointerToBftBlock2::null(),
        10,
        three_headers(),
    )
    .expect("valid dynamic-sigma evidence should build a payload");
    let encoded = payload.zcash_serialize_to_vec();

    let decoded = BftBlockPayload::zcash_deserialize_from_slice(encoded.as_slice())
        .expect("dynamic-sigma payload should decode");

    assert!(matches!(decoded, BftBlockPayload::DynamicSigma(_)));
    assert_eq!(
        decoded.block().zcash_serialize_to_vec(),
        payload.block.zcash_serialize_to_vec(),
    );
}

#[test]
fn block_roundtrips_through_its_layout() {
    let mut headers = three_headers();
    headers[1].solution = vec![7; 36];
    headers[2].fat_pointer_to_bft_block = FatPointerToBftBlock2 {
        vote_for_block_without_finalizer_public_key: [3; 44],
        signatures: vec![FatPointerSignature2 {
            public_key: [4; 32],
            vote_signature: [5; 64],
        }],
    };
    let block = BftBlock {
        version: 9,
        height: 77,
        previous_block_fat_ptr: FatPointerToBftBlock2::null(),
        finalization_candidate_height: 12,
        headers,
    };
    let encoded = block.zcash_serialize_to_vec();
    // 4 + 4 + 46 + 4 + 4 bytes of block fields, then three headers.
    let header_common = 140 + 46;
    assert_eq!(
        encoded.len(),
        62 + (header_common + 3 + 1344) + (header_common + 1 + 36) + (header_common + 96 + 3 + 1344)
    );
    let decoded = BftBlock::zcash_deserialize(encoded.as_slice()).expect("block decodes");
    assert_eq!(decoded, block);
}

#[test]
fn block_decoding_reports_each_error() {
    assert_eq!(
        BftBlock::zcash_deserialize(&[0; 7]),
        Err(SerializationError::UnexpectedEnd)
    );
    let mut bytes = vec![0u8; 8];
    bytes.extend_from_slice(&FatPointerToBftBlock2::null().to_bytes());
    bytes.extend_from_slice(&10u32.to_le_bytes());
    bytes.extend_from_slice(&2049u32.to_le_bytes());
    assert_eq!(
        BftBlock::zcash_deserialize(&bytes),
        Err(SerializationError::HeaderCountTooLarge)
    );
    let mut one = bytes.clone();
    let at = one.len() - 4;
    one[at..].copy_from_slice(&1u32.to_le_bytes());
    let mut bad_header = vec![0u8; 140];
    bad_header.push(35);
    one.extend_from_slice(&bad_header);
    assert_eq!(
        BftBlock::zcash_deserialize(&one),
        Err(SerializationError::InvalidSolutionSize)
    );
}

#[test]
fn previous_block_hash_is_the_fat_pointer_target() {
    let mut vote = [0u8; 44];
    vote[..32].copy_from_slice(&[9; 32]);
    let block = BftBlock {
        version: 1,
        height: 1,
        previous_block_fat_ptr: FatPointerToBftBlock2 {
            vote_for_block_without_finalizer_public_key: vote,
            signatures: Vec::new(),
        },
        finalization_candidate_height: 1,
        headers: vec![test_header([5; 32])],
    };
    assert_eq!(block.previous_block_hash().0, [9; 32]);
    assert_eq!(block.finalization_candidate().previous_block_hash, [5; 32]);
}

#[test]
fn blake3_hash_hashes_the_block_layout() {
    let block = BftBlock::try_from_with_confirmation_depth(
        3,
        1,
        FatPointerToBftBlock2::null(),
        10,
        three_headers(),
    )
    .expect("three headers match the selected depth");
    let bytes = block.zcash_serialize_to_vec();
    assert_eq!(block.blake3_hash(&None).0, *blake3::hash(&bytes).as_bytes());
    assert_ne!(block.blake3_hash(&None).0, [0; 32]);
    let key = [7u8; 32];
    assert_eq!(
        block.blake3_hash(&Some(key)).0,
        *blake3::keyed_hash(&key, &bytes).as_bytes()
    );
}

#[test]
fn block_and_fat_pointer_roundtrip() {
    let block = BftBlock::try_from_with_confirmation_depth(
        1,
        4,
        FatPointerToBftBlock2::null(),
        3,
        vec![test_header([1; 32])],
    )
    .expect("one header");
    let fat_ptr = FatPointerToBftBlock2 {
        vote_for_block_without_finalizer_public_key: [6; 44],
        signatures: vec![],
    };
    let pair = BftBlockAndFatPointerToIt {
        block: block.clone(),
        fat_ptr: fat_ptr.clone(),
    };
    let bytes = pair.zcash_serialize_to_vec();
    let decoded = BftBlockAndFatPointerToIt::zcash_deserialize(&bytes).expect("decodes");
    assert_eq!(decoded.block, block);
    assert_eq!(decoded.fat_ptr, fat_ptr);
}

#[test]
fn try_from_rejects_an_unknown_header_version() {
    let mut headers = three_headers();
    headers[1].version = 0;
    assert_eq!(
        BftBlock::try_from(&prototype_parameters(), 1, FatPointerToBftBlock2::null(), 10, headers),
        Err(InvalidBftBlock::UnknownVersion)
    );
}

#[test]
fn try_from_rejects_a_solution_of_unknown_size() {
    let mut headers = three_headers();
    headers[2].solution = vec![0; 100];
    assert_eq!(
        BftBlock::try_from(&prototype_parameters(), 1, FatPointerToBftBlock2::null(), 10, headers),
        Err(InvalidBftBlock::InvalidSolution)
    );
}

#[test]
fn try_from_rejects_headers_that_do_not_walk_back() {
    // The first header names a block other than the second header.
    let mut headers = three_headers();
    headers[1].previous_block_hash = headers[2].hash();
    assert_eq!(
        BftBlock::try_from(&prototype_parameters(), 1, FatPointerToBftBlock2::null(), 10, headers),
        Err(InvalidBftBlock::HeadersOutOfOrder)
    );
}

#[test]
fn try_from_rejects_chained_headers_without_valid_proof_of_work() {
    let mut headers = three_headers();
    headers[1].previous_block_hash = headers[2].hash();
    headers[0].previous_block_hash = headers[1].hash();
    let mut regtest = headers.clone();
    for h in regtest.iter_mut() {
        h.solution = vec![0; 36];
    }
    regtest[1].previous_block_hash = regtest[2].hash();
    regtest[0].previous_block_hash = regtest[1].hash();
    assert_eq!(
        BftBlock::try_from(&prototype_parameters(), 1, FatPointerToBftBlock2::null(), 10, headers),
        Err(InvalidBftBlock::InvalidSolution)
    );
    assert_eq!(
        BftBlock::try_from(&prototype_parameters(), 1, FatPointerToBftBlock2::null(), 10, regtest),
        Err(InvalidBftBlock::InvalidSolution)
    );
}
