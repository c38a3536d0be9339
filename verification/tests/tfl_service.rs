use sha2::Digest;
use zebra_crosslink::chain::{prototype_parameters, BcBlockHeader, BftBlock};
use zebra_crosslink::fat_pointer::{FatPointerSignature2, FatPointerToBftBlock2, MalValidator};
use zebra_crosslink::roster::{FinalizerNames, StakingAction, StakingActionKind};
use zebra_crosslink::tfl::{BlockHeight, TmStatus};
use zebra_crosslink::tfl_service::{
    apply_finalized_blocks, block_finality_from_hash_at_height, block_finality_step,
    block_sequence_begin, check_decided_block, check_decided_block_with_signatures, current_validator_set,
    final_block_lookup, finality_gap, finalized_blocks_fit_check, FinalBlockLookup, finalized_sequence_start, get_historical_bft_block_at_height, main_loop_activation, proposal_candidate_height,
    propose_bft_block, push_new_bft_msg_flags, record_decided_block, roster_summary,
    set_finality_by_hash, sorted_roster, take_roster_cmd_string, tx_finality, BftValidation,
    BftValidationMode, BftValidationQuery, BftValidationReply, BftValidationStep,
    BlockSequenceError, DecidedBlockError, FinalityGap, FinalityQueryStep, FinalizedPowBlock,
    TflBlockFinality, TflState,
};

fn header(previous_block_hash: [u8; 32]) -> BcBlockHeader {
    BcBlockHeader {
        version: 4,
        previous_block_hash,
        merkle_root: [0; 32],
        commitment_bytes: [0; 32],
        time: 1_700_000_000,
        difficulty_threshold: u32::MAX,
        nonce: [0; 32],
        solution: vec![0; 1344],
        fat_pointer_to_bft_block: FatPointerToBftBlock2::null(),
    }
}

fn pointer_to(hash: [u8; 32]) -> FatPointerToBftBlock2 {
    let mut vote = [0u8; 44];
    vote[..32].copy_from_slice(&hash);
    FatPointerToBftBlock2 {
        vote_for_block_without_finalizer_public_key: vote,
        signatures: Vec::new(),
    }
}

fn block(height: u32, previous: FatPointerToBftBlock2, candidate_height: u32) -> BftBlock {
    BftBlock {
        version: 1,
        height,
        previous_block_fat_ptr: previous,
        finalization_candidate_height: candidate_height,
        headers: vec![header([7; 32])],
    }
}

fn empty_state() -> TflState {
    TflState {
        my_public_key: [42; 32],
        latest_final_block: None,
        tfl_is_activated: false,
        bft_msg_flags: 0,
        bft_err_flags: 0,
        bft_blocks: Vec::new(),
        fat_pointer_to_tip: FatPointerToBftBlock2::null(),
        our_set_bft_string: None,
        active_bft_string: None,
        validators_keys_to_names: FinalizerNames::new(),
        validators_at_current_height: Vec::new(),
        current_bc_final: None,
        block_hash_key: None,
    }
}

#[test]
fn header_hash_is_double_sha256_of_its_layout() {
    let h = header([3; 32]);
    let mut bytes = Vec::new();
    h.write_to(&mut bytes);
    let expected: [u8; 32] = sha2::Sha256::digest(sha2::Sha256::digest(&bytes)).into();
    assert_eq!(h.hash(), expected);
    assert_ne!(h.hash(), header([4; 32]).hash());
}

#[test]
fn voting_validation_walks_lookups_to_pass_or_stale() {
    let tip = pointer_to([5; 32]);
    let new_block = block(1, pointer_to([5; 32]), 10);
    let candidate_hash = new_block.headers[0].hash();

    let (mut v, step) = BftValidation::start(BftValidationMode::Voting, &new_block, &tip, 3);
    assert_eq!(
        step,
        BftValidationStep::Query(BftValidationQuery::HeightOfHash(candidate_hash))
    );
    assert_eq!(
        v.resume(BftValidationReply::HeightOfHash(Some(BlockHeight(10)))),
        BftValidationStep::Query(BftValidationQuery::Tip)
    );
    assert_eq!(
        v.resume(BftValidationReply::Tip(Some(BlockHeight(13)))),
        BftValidationStep::Query(BftValidationQuery::HashAtHeight(BlockHeight(10)))
    );
    let mut stale = v;
    assert_eq!(
        v.resume(BftValidationReply::HashAtHeight(Some(candidate_hash))),
        BftValidationStep::Done(TmStatus::Pass)
    );
    assert_eq!(
        stale.resume(BftValidationReply::HashAtHeight(Some([9; 32]))),
        BftValidationStep::Done(TmStatus::Stale)
    );
}

#[test]
fn validation_rejects_wrong_parent_missing_candidate_and_mismatched_height() {
    let tip = pointer_to([5; 32]);

    let wrong_parent = block(1, pointer_to([6; 32]), 10);
    let (_, step) = BftValidation::start(BftValidationMode::Voting, &wrong_parent, &tip, 3);
    assert_eq!(step, BftValidationStep::Done(TmStatus::Fail));

    let mut no_headers = block(1, pointer_to([5; 32]), 10);
    no_headers.headers.clear();
    let (_, step) = BftValidation::start(BftValidationMode::Voting, &no_headers, &tip, 3);
    assert_eq!(step, BftValidationStep::Done(TmStatus::Fail));

    let good = block(1, pointer_to([5; 32]), 10);
    let (mut v, _) = BftValidation::start(BftValidationMode::Voting, &good, &tip, 3);
    let mut unknown = v;
    assert_eq!(
        v.resume(BftValidationReply::HeightOfHash(Some(BlockHeight(9)))),
        BftValidationStep::Done(TmStatus::Fail)
    );
    assert_eq!(
        unknown.resume(BftValidationReply::HeightOfHash(None)),
        BftValidationStep::Done(TmStatus::Indeterminate)
    );
}

#[test]
fn decided_validation_skips_the_current_stream_check() {
    let tip = pointer_to([5; 32]);
    let new_block = block(1, pointer_to([5; 32]), 10);
    let (mut v, _) = BftValidation::start(BftValidationMode::Decided, &new_block, &tip, 3);
    assert_eq!(
        v.resume(BftValidationReply::HeightOfHash(Some(BlockHeight(10)))),
        BftValidationStep::Done(TmStatus::Pass)
    );
}

#[test]
fn voting_validation_is_indeterminate_without_tip_or_candidate() {
    let tip = pointer_to([5; 32]);
    let new_block = block(1, pointer_to([5; 32]), 1);
    let (mut v, _) = BftValidation::start(BftValidationMode::Voting, &new_block, &tip, 3);
    v.resume(BftValidationReply::HeightOfHash(Some(BlockHeight(1))));
    let mut no_tip = v;
    assert_eq!(
        v.resume(BftValidationReply::Tip(Some(BlockHeight(2)))),
        BftValidationStep::Done(TmStatus::Indeterminate)
    );
    assert_eq!(
        no_tip.resume(BftValidationReply::Tip(None)),
        BftValidationStep::Done(TmStatus::Indeterminate)
    );
}

#[test]
fn decided_block_checks_pointer_signatures_and_quorum() {
    let mut state = empty_state();
    state.validators_at_current_height = vec![
        MalValidator::new([1; 32], 1),
        MalValidator::new([2; 32], 1),
    ];
    let new_block = block(1, FatPointerToBftBlock2::null(), 10);
    let mut pointer = pointer_to(new_block.blake3_hash(&None).0);

    assert_eq!(
        check_decided_block_with_signatures(&state, &new_block, &pointer_to([0; 32]), true),
        Err(DecidedBlockError::FatPointerMismatch)
    );
    assert_eq!(
        check_decided_block_with_signatures(&state, &new_block, &pointer, false),
        Err(DecidedBlockError::InvalidSignatures)
    );
    assert_eq!(
        check_decided_block_with_signatures(&state, &new_block, &pointer, true),
        Err(DecidedBlockError::NoQuorum)
    );
    for k in [1u8, 2] {
        pointer.signatures.push(FatPointerSignature2 {
            public_key: [k; 32],
            vote_signature: [0; 64],
        });
    }
    assert_eq!(
        check_decided_block_with_signatures(&state, &new_block, &pointer, true),
        Ok(())
    );
}

#[test]
fn decided_blocks_are_recorded_at_their_height() {
    let mut state = empty_state();
    let first = block(1, FatPointerToBftBlock2::null(), 10);
    let first_pointer = pointer_to(first.blake3_hash(&None).0);
    assert_eq!(
        record_decided_block(
            &mut state,
            first.clone(),
            first_pointer.clone(),
            BlockHeight(10),
            [7; 32]
        ),
        Ok(())
    );
    assert_eq!(state.bft_blocks, vec![first.clone()]);
    assert_eq!(state.fat_pointer_to_tip, first_pointer);
    assert_eq!(state.latest_final_block, Some((BlockHeight(10), [7; 32])));

    // The height is taken now.
    assert_eq!(
        record_decided_block(
            &mut state,
            first.clone(),
            first_pointer.clone(),
            BlockHeight(11),
            [8; 32]
        ),
        Err(DecidedBlockError::HeightOccupied)
    );

    let second = block(2, first_pointer.clone(), 11);
    assert_eq!(
        record_decided_block(
            &mut state,
            second.clone(),
            pointer_to([1; 32]),
            BlockHeight(11),
            [8; 32]
        ),
        Ok(())
    );
    assert_eq!(state.bft_blocks, vec![first, second]);
    assert_eq!(state.latest_final_block, Some((BlockHeight(11), [8; 32])));
}

#[test]
fn decided_block_errors_leave_finality_unchanged() {
    let mut state = empty_state();
    assert_eq!(
        record_decided_block(
            &mut state,
            block(0, FatPointerToBftBlock2::null(), 10),
            pointer_to([1; 32]),
            BlockHeight(10),
            [7; 32]
        ),
        Err(DecidedBlockError::ZeroHeight)
    );
    assert!(state.bft_blocks.is_empty());

    // A block above missing ones is padded below, and must point at the
    // placeholder stored there.
    assert_eq!(
        record_decided_block(
            &mut state,
            block(3, pointer_to([1; 32]), 10),
            pointer_to([1; 32]),
            BlockHeight(10),
            [7; 32]
        ),
        Err(DecidedBlockError::PreviousBlockMismatch)
    );
    assert_eq!(state.bft_blocks.len(), 3);
    assert_eq!(state.bft_blocks[1].height, 1);
    assert!(state.bft_blocks[2].headers.is_empty());
    assert_eq!(state.latest_final_block, None);

    let mut no_headers = block(1, FatPointerToBftBlock2::null(), 10);
    no_headers.headers.clear();
    assert_eq!(
        record_decided_block(
            &mut state,
            no_headers,
            pointer_to([1; 32]),
            BlockHeight(10),
            [7; 32]
        ),
        Err(DecidedBlockError::NoHeaders)
    );

    let placeholder_hash = state.bft_blocks[0].blake3_hash(&None).0;
    assert_eq!(
        record_decided_block(
            &mut state,
            block(2, FatPointerToBftBlock2::null(), 10),
            pointer_to([1; 32]),
            BlockHeight(10),
            [7; 32]
        ),
        if placeholder_hash == [0; 32] {
            Err(DecidedBlockError::MissingPreviousBlock)
        } else {
            Err(DecidedBlockError::PreviousBlockMismatch)
        }
    );
}

#[test]
fn finalized_blocks_apportion_rewards_and_apply_commands() {
    let mut state = empty_state();
    state.validators_at_current_height = vec![MalValidator::new([1; 32], 1)];
    state.latest_final_block = Some((BlockHeight(12), [12; 32]));
    state.current_bc_final = Some((BlockHeight(10), [10; 32]));
    assert_eq!(finalized_sequence_start(&state), Some([10; 32]));

    let add = StakingAction {
        kind: StakingActionKind::Add,
        val: 100,
        target: [2; 32],
        source: [0; 32],
        insecure_target_name: "bob".to_string(),
        insecure_source_name: String::new(),
    };
    let blocks = vec![
        FinalizedPowBlock {
            height: BlockHeight(10),
            hash: [10; 32],
            staking_actions: Some(Vec::new()),
        },
        FinalizedPowBlock {
            height: BlockHeight(11),
            hash: [11; 32],
            staking_actions: Some(vec![add]),
        },
        FinalizedPowBlock {
            height: BlockHeight(12),
            hash: [12; 32],
            staking_actions: None,
        },
    ];
    let announced = apply_finalized_blocks(&mut state, &blocks);
    assert_eq!(
        announced,
        vec![(BlockHeight(11), [11; 32]), (BlockHeight(12), [12; 32])]
    );
    // Block 11: the sole finalizer takes the whole reward, then bob joins
    // with 100. Block 12: 6000 shared over 6101, rounded down, with the
    // remainder to the largest finalizer.
    let first = 6001u64;
    let bob_share = 100 * 6000 / 6101;
    assert_eq!(
        state
            .validators_at_current_height
            .iter()
            .map(|v| v.voting_power)
            .collect::<Vec<_>>(),
        vec![first + (6000 - bob_share), 100 + bob_share]
    );
    assert_eq!(
        state.validators_keys_to_names.get(&[2; 32]).map(String::as_str),
        Some("bob")
    );
    assert_eq!(state.current_bc_final, Some((BlockHeight(12), [12; 32])));
    assert_eq!(finalized_sequence_start(&state), Some([12; 32]));
}

#[test]
fn finalized_blocks_are_ignored_without_a_final_block() {
    let mut state = empty_state();
    state.validators_at_current_height = vec![MalValidator::new([1; 32], 1)];
    let blocks = vec![FinalizedPowBlock {
        height: BlockHeight(1),
        hash: [1; 32],
        staking_actions: None,
    }];
    assert!(apply_finalized_blocks(&mut state, &blocks).is_empty());
    assert_eq!(state.validators_at_current_height[0].voting_power, 1);
    assert_eq!(finalized_sequence_start(&state), None);
}

#[test]
fn validator_set_includes_this_node_and_sorts_for_the_engine() {
    let mut state = empty_state();
    state.validators_at_current_height = vec![MalValidator::new([1; 32], 3)];
    assert_eq!(
        current_validator_set(&state),
        vec![MalValidator::new([1; 32], 3), MalValidator::new([42; 32], 0)]
    );
    state.validators_at_current_height.push(MalValidator::new([42; 32], 5));
    assert_eq!(current_validator_set(&state).len(), 2);

    let sorted = sorted_roster(&state);
    assert_eq!(sorted[0].pub_key, [42; 32]);
    assert_eq!(sorted[1].cumulative_stake, 8);
    assert_eq!(roster_summary(&state), vec![([1; 32], 3), ([42; 32], 5)]);
}

#[test]
fn proposals_only_improve_finality() {
    assert_eq!(proposal_candidate_height(None, None, 3), None);
    assert_eq!(
        proposal_candidate_height(Some(BlockHeight(2)), None, 3),
        None
    );
    assert_eq!(
        proposal_candidate_height(Some(BlockHeight(13)), None, 3),
        Some(BlockHeight(10))
    );
    assert_eq!(
        proposal_candidate_height(Some(BlockHeight(13)), Some((BlockHeight(10), [0; 32])), 3),
        None
    );
    assert_eq!(
        proposal_candidate_height(Some(BlockHeight(14)), Some((BlockHeight(10), [0; 32])), 3),
        Some(BlockHeight(11))
    );

    let state = empty_state();
    let params = prototype_parameters();
    // Headers of the right count that do not walk back from the tip are refused.
    let headers = vec![header([0; 32]), header([1; 32]), header([2; 32])];
    assert_eq!(propose_bft_block(&state, &params, BlockHeight(10), headers), None);
    // Chained headers without a valid proof of work are refused too.
    let deep = header([2; 32]);
    let middle = header(deep.hash());
    let tip = header(middle.hash());
    assert_eq!(
        propose_bft_block(&state, &params, BlockHeight(10), vec![tip, middle, deep]),
        None
    );
    assert_eq!(
        propose_bft_block(&state, &params, BlockHeight(10), vec![header([0; 32])]),
        None
    );
}

#[test]
fn block_and_transaction_finality_queries() {
    let final_block = Some((BlockHeight(10), [10; 32]));
    assert_eq!(
        block_finality_step(BlockHeight(5), [5; 32], None),
        FinalityQueryStep::NoFinalBlock
    );
    assert_eq!(
        block_finality_step(BlockHeight(11), [11; 32], final_block),
        FinalityQueryStep::Done(TflBlockFinality::NotYetFinalized)
    );
    assert_eq!(
        block_finality_step(BlockHeight(10), [10; 32], final_block),
        FinalityQueryStep::Done(TflBlockFinality::Finalized)
    );
    assert_eq!(
        block_finality_step(BlockHeight(10), [9; 32], final_block),
        FinalityQueryStep::Done(TflBlockFinality::CantBeFinalized)
    );
    assert_eq!(
        block_finality_step(BlockHeight(9), [9; 32], final_block),
        FinalityQueryStep::NeedHashAtHeight
    );
    assert_eq!(
        block_finality_from_hash_at_height(&[9; 32], &[9; 32]),
        TflBlockFinality::Finalized
    );
    assert_eq!(
        block_finality_from_hash_at_height(&[9; 32], &[8; 32]),
        TflBlockFinality::CantBeFinalized
    );
    assert_eq!(
        tx_finality(BlockHeight(10), BlockHeight(10)),
        TflBlockFinality::Finalized
    );
    assert_eq!(
        tx_finality(BlockHeight(11), BlockHeight(10)),
        TflBlockFinality::NotYetFinalized
    );
}

#[test]
fn activation_and_manual_finality() {
    let mut state = empty_state();
    assert_eq!(
        set_finality_by_hash(&mut state, [1; 32], Some(BlockHeight(5))),
        None
    );
    assert_eq!(state.latest_final_block, None);

    assert!(!main_loop_activation(&mut state, Some((BlockHeight(1999), [0; 32]))));
    assert!(!state.tfl_is_activated);
    assert!(main_loop_activation(&mut state, None));
    assert!(!state.tfl_is_activated);
    assert!(main_loop_activation(&mut state, Some((BlockHeight(2000), [0; 32]))));
    assert!(state.tfl_is_activated);
    assert!(main_loop_activation(&mut state, Some((BlockHeight(5), [0; 32]))));

    assert_eq!(
        set_finality_by_hash(&mut state, [1; 32], Some(BlockHeight(5))),
        Some(BlockHeight(5))
    );
    assert_eq!(state.latest_final_block, Some((BlockHeight(5), [1; 32])));
    assert_eq!(set_finality_by_hash(&mut state, [2; 32], None), None);
    assert_eq!(state.latest_final_block, Some((BlockHeight(5), [1; 32])));
}

#[test]
fn finality_gap_warns_past_512_blocks() {
    let at = |h: u32| Some((BlockHeight(h), [0; 32]));
    assert_eq!(finality_gap(None, at(1)), None);
    assert_eq!(finality_gap(at(5), at(8)), Some(FinalityGap::TipBelowFinal(3)));
    assert_eq!(
        finality_gap(at(600), at(88)),
        Some(FinalityGap::FinalBelowTip {
            blocks: 512,
            warn: false
        })
    );
    assert_eq!(
        finality_gap(at(601), at(88)),
        Some(FinalityGap::FinalBelowTip {
            blocks: 513,
            warn: true
        })
    );
}

#[test]
fn roster_command_strings_prefer_our_own_once() {
    let mut state = empty_state();
    state.our_set_bft_string = Some("ours".to_string());
    assert_eq!(
        take_roster_cmd_string(&mut state, Some("theirs".to_string())),
        Some("ours".to_string())
    );
    assert_eq!(state.active_bft_string, None);
    assert_eq!(take_roster_cmd_string(&mut state, Some("theirs".to_string())), None);
    assert_eq!(state.active_bft_string, Some("theirs".to_string()));
    assert_eq!(take_roster_cmd_string(&mut state, None), None);
    assert_eq!(state.active_bft_string, Some("theirs".to_string()));
}

#[test]
fn message_flags_accumulate() {
    let mut state = empty_state();
    push_new_bft_msg_flags(&mut state, 0b0101, 0b1000);
    push_new_bft_msg_flags(&mut state, 0b0011, 0);
    assert_eq!(state.bft_msg_flags, 0b0111);
    assert_eq!(state.bft_err_flags, 0b1000);
}

#[test]
fn block_sequences_number_hashes_from_the_start_height() {
    assert!(block_sequence_begin(None, [1; 32], true, Some(BlockHeight(5))).is_none());
    assert!(block_sequence_begin(Some((BlockHeight(5), [0; 32])), [1; 32], true, None).is_none());
    assert!(block_sequence_begin(
        Some((BlockHeight(5), [0; 32])),
        [1; 32],
        false,
        Some(BlockHeight(5))
    )
    .is_none());

    let mut seq = block_sequence_begin(
        Some((BlockHeight(5), [4; 32])),
        [5; 32],
        true,
        Some(BlockHeight(7)),
    )
    .expect("final height is above the start");
    assert_eq!(seq.start_height, BlockHeight(5));
    assert_eq!(seq.next_known, [4; 32]);

    let mut bad = block_sequence_begin(
        Some((BlockHeight(5), [4; 32])),
        [5; 32],
        true,
        Some(BlockHeight(7)),
    )
    .expect("final height is above the start");
    assert_eq!(
        bad.push_chunk(&[[6; 32]]),
        Err(BlockSequenceError::FirstHashMismatch)
    );

    assert_eq!(seq.push_chunk(&[[5; 32], [6; 32]]), Ok(true));
    assert_eq!(seq.next_known, [6; 32]);
    assert_eq!(seq.push_chunk(&[[7; 32]]), Ok(true));
    assert_eq!(seq.push_chunk(&[]), Ok(false));
    assert_eq!(
        seq.hashes,
        vec![
            (BlockHeight(5), [5; 32]),
            (BlockHeight(6), [6; 32]),
            (BlockHeight(7), [7; 32])
        ]
    );
}

#[test]
fn historical_blocks_come_with_the_pointer_to_them() {
    let mut state = empty_state();
    let first = block(1, FatPointerToBftBlock2::null(), 10);
    let first_pointer = pointer_to(first.blake3_hash(&None).0);
    let second = block(2, first_pointer.clone(), 11);
    let second_pointer = pointer_to([2; 32]);
    state.bft_blocks = vec![first.clone(), second.clone()];
    state.fat_pointer_to_tip = second_pointer.clone();

    assert_eq!(get_historical_bft_block_at_height(&state, 0), None);
    assert_eq!(
        get_historical_bft_block_at_height(&state, 1),
        Some((first, first_pointer))
    );
    assert_eq!(
        get_historical_bft_block_at_height(&state, 2),
        Some((second, second_pointer))
    );
    assert_eq!(get_historical_bft_block_at_height(&state, 3), None);
}

#[test]
fn recorded_block_is_read_back_at_its_height() {
    let mut state = empty_state();
    let first = block(1, FatPointerToBftBlock2::null(), 10);
    let first_pointer = pointer_to(first.blake3_hash(&None).0);
    assert_eq!(
        record_decided_block(&mut state, first.clone(), first_pointer.clone(), BlockHeight(10), [7; 32]),
        Ok(())
    );
    let (read, _) = get_historical_bft_block_at_height(&state, 1).expect("height 1 is stored");
    assert_eq!(read, first);
    assert!(get_historical_bft_block_at_height(&state, 2).is_none());
    assert!(get_historical_bft_block_at_height(&state, 0).is_none());
}

#[test]
fn finalized_blocks_fit_exactly_when_the_totals_fit_in_u64() {
    let mut state = empty_state();
    state.validators_at_current_height = vec![MalValidator::new([1; 32], u64::MAX - 6_000)];
    let reward_only = vec![FinalizedPowBlock {
        height: BlockHeight(1),
        hash: [1; 32],
        staking_actions: None,
    }];
    assert!(finalized_blocks_fit_check(&state, &reward_only));
    let with_command = vec![FinalizedPowBlock {
        height: BlockHeight(1),
        hash: [1; 32],
        staking_actions: Some(vec![StakingAction {
            kind: StakingActionKind::Add,
            val: 1,
            target: [2; 32],
            source: [0; 32],
            insecure_target_name: String::new(),
            insecure_source_name: String::new(),
        }]),
    }];
    assert!(!finalized_blocks_fit_check(&state, &with_command));
    // A block at the current final boundary adds nothing.
    state.current_bc_final = Some((BlockHeight(1), [1; 32]));
    assert!(finalized_blocks_fit_check(&state, &with_command));
    state.validators_at_current_height.push(MalValidator::new([3; 32], u64::MAX));
    assert!(!finalized_blocks_fit_check(&state, &[]));
}

#[test]
fn decided_block_with_a_malleable_signature_is_refused() {
    let mut state = empty_state();
    state.validators_at_current_height = vec![MalValidator::new([1; 32], 1)];
    let new_block = block(1, FatPointerToBftBlock2::null(), 10);
    let mut pointer = pointer_to(new_block.blake3_hash(&None).0);
    pointer.signatures.push(FatPointerSignature2 {
        public_key: [1; 32],
        vote_signature: [0xff; 64],
    });
    assert_eq!(
        check_decided_block(&state, &new_block, &pointer),
        Err(DecidedBlockError::InvalidSignatures)
    );
}

#[test]
fn keyed_block_hashes_identify_decided_blocks() {
    let mut state = empty_state();
    state.block_hash_key = Some([3; 32]);
    state.validators_at_current_height = vec![MalValidator::new([1; 32], 1)];
    let new_block = block(1, FatPointerToBftBlock2::null(), 10);
    let unkeyed = pointer_to(new_block.blake3_hash(&None).0);
    assert_eq!(
        check_decided_block_with_signatures(&state, &new_block, &unkeyed, true),
        Err(DecidedBlockError::FatPointerMismatch)
    );
    let keyed = pointer_to(new_block.blake3_hash(&Some([3; 32])).0);
    assert_eq!(
        check_decided_block_with_signatures(&state, &new_block, &keyed, true),
        Err(DecidedBlockError::NoQuorum)
    );
}

#[test]
fn final_block_comes_from_the_record_else_the_locator_tail() {
    let recorded = (BlockHeight(7), [7; 32]);
    assert_eq!(
        final_block_lookup(Some(recorded), &[[1; 32], [2; 32]]),
        FinalBlockLookup::Recorded(recorded)
    );
    assert_eq!(
        final_block_lookup(None, &[[1; 32], [2; 32]]),
        FinalBlockLookup::LocatorTail([2; 32])
    );
    assert_eq!(final_block_lookup(None, &[]), FinalBlockLookup::Unknown);
}
