//! Decisions of the Crosslink finality service: judging BFT blocks against
//! the local PoW chain, recording decided blocks, applying newly finalized PoW
//! blocks to the roster, and answering finality queries. State lookups and
//! channel traffic stay with the caller, which hands their results in.
use crate::chain::{
    block_identity_hash, block_bytes, block_writable, header_hash, header_views,
    spec_try_from, BcBlockHeader, BftBlock, BftBlockView,
    ZcashCrosslinkParameters,
};
use crate::fat_pointer::{
    ed25519_s_canonical, fat_pointer_has_roster_quorum, fat_pointer_signatures_valid,
    has_roster_quorum,
    FatPointerToBftBlock2, FatPointerView,
    MalValidator, SignatureView,
};
use crate::roster::{
    actions_value_sum, lemma_actions_fit_under_bound, lemma_apportioning_fits_under_bound,
    tenderlink_roster_from_internal, SortedRosterMember, actions_fit, apportion_finalizer_rewards, apportioned, apportioning_fits, names_after_actions,
    roster_after_actions, update_roster_for_block, FinalizerNames, StakingAction,
    POS_TOTAL_REWARD,
};
use crate::tfl::{
    fat_pointer_to_block_at_height, spec_fat_pointer_to_block_at_height, tfl_activation_height, finality_candidate_height_at_depth, proposal_status_against_current_stream,
    spec_finality_candidate_height_at_depth, BlockHeight, TmStatus,
};
use vstd::prelude::*;

verus! {

/// Whether a block is judged as a proposal to vote on, or as a block the BFT
/// engine has already decided.
#[derive(Clone, Copy, Debug, PartialEq, Eq, Structural)]
pub enum BftValidationMode {
    /// A proposal: its finalization candidate must also be the current one.
    Voting,
    /// A decided block: only its own consistency is checked.
    Decided,
}

/// A state lookup that the validation of a BFT block waits for.
#[derive(Clone, Copy, Debug, PartialEq, Eq)]
pub enum BftValidationQuery {
    /// The height of the PoW block with this hash.
    HeightOfHash([u8; 32]),
    /// The current PoW tip height.
    Tip,
    /// The hash of the best-chain PoW block at this height.
    HashAtHeight(BlockHeight),
}

/// What validation does next: conclude, or wait for a lookup.
#[derive(Clone, Copy, Debug, PartialEq, Eq)]
pub enum BftValidationStep {
    /// The verdict.
    Done(TmStatus),
    /// The lookup to perform and answer with [BftValidation::resume].
    Query(BftValidationQuery),
}

/// The answer to a lookup; `None` when the state service could not answer.
#[derive(Clone, Copy, Debug, PartialEq, Eq)]
pub enum BftValidationReply {
    /// The height of the hash, if known.
    HeightOfHash(Option<BlockHeight>),
    /// The tip height, if there is a tip.
    Tip(Option<BlockHeight>),
    /// The best-chain hash at the height, if known.
    HashAtHeight(Option<[u8; 32]>),
}

/// Where a validation stands.
#[derive(Clone, Copy, Debug, PartialEq, Eq, Structural)]
pub enum BftValidationStage {
    /// Waiting for the height of the candidate hash.
    AwaitHeightOfHash,
    /// Waiting for the tip; the candidate's observed height is known.
    AwaitTip(BlockHeight),
    /// Waiting for the current candidate's hash; the candidate's observed
    /// height and the current candidate height are known.
    AwaitHashAtHeight(BlockHeight, BlockHeight),
    /// A verdict was given.
    Finished,
}

/// An ongoing validation of a BFT block against the local PoW chain.
#[derive(Clone, Copy, Debug, PartialEq, Eq)]
pub struct BftValidation {
    /// Voting or decided.
    pub mode: BftValidationMode,
    /// The confirmation depth below the tip at which the current candidate lies.
    pub confirmation_depth: u64,
    /// The finalization candidate height the block declares.
    pub declared_candidate_height: u32,
    /// The hash of the block's finalization candidate header.
    pub candidate_hash: [u8; 32],
    /// Where the validation stands.
    pub stage: BftValidationStage,
}

/// The outcome of the first validation step: the block must point at the
/// current BFT tip and carry a finalization candidate header, whose height is
/// then looked up.
pub open spec fn spec_validation_start(block: BftBlockView, fat_pointer_to_tip: FatPointerView) -> Option<
    TmStatus,
> {
    if block.previous_block_fat_ptr.vote.subrange(0, 32) != fat_pointer_to_tip.vote.subrange(0, 32) {
        Some(TmStatus::Fail)
    } else if block.headers.len() == 0 {
        Some(TmStatus::Fail)
    } else {
        None
    }
}

/// One validation step: the next stage and what to do, given a lookup answer.
/// An answer that does not fit the stage concludes `Indeterminate`.
pub open spec fn spec_validation_resume(v: BftValidation, reply: BftValidationReply) -> (
    BftValidationStage,
    BftValidationStep,
) {
    match (v.stage, reply) {
        (BftValidationStage::AwaitHeightOfHash, BftValidationReply::HeightOfHash(h)) => match h {
            None => (BftValidationStage::Finished, BftValidationStep::Done(TmStatus::Indeterminate)),
            Some(observed) => if v.declared_candidate_height != observed.0 {
                (BftValidationStage::Finished, BftValidationStep::Done(TmStatus::Fail))
            } else if v.mode == BftValidationMode::Decided {
                (BftValidationStage::Finished, BftValidationStep::Done(TmStatus::Pass))
            } else {
                (
                    BftValidationStage::AwaitTip(observed),
                    BftValidationStep::Query(BftValidationQuery::Tip),
                )
            },
        },
        (BftValidationStage::AwaitTip(observed), BftValidationReply::Tip(t)) => match t {
            None => (BftValidationStage::Finished, BftValidationStep::Done(TmStatus::Indeterminate)),
            Some(tip) => match spec_finality_candidate_height_at_depth(tip.0, v.confirmation_depth) {
                None => (
                    BftValidationStage::Finished,
                    BftValidationStep::Done(TmStatus::Indeterminate),
                ),
                Some(current) => (
                    BftValidationStage::AwaitHashAtHeight(observed, BlockHeight(current)),
                    BftValidationStep::Query(BftValidationQuery::HashAtHeight(BlockHeight(current))),
                ),
            },
        },
        (
            BftValidationStage::AwaitHashAtHeight(observed, current),
            BftValidationReply::HashAtHeight(h),
        ) => match h {
            None => (BftValidationStage::Finished, BftValidationStep::Done(TmStatus::Indeterminate)),
            Some(current_hash) => (
                BftValidationStage::Finished,
                BftValidationStep::Done(
                    if observed == current && v.candidate_hash@ == current_hash@ {
                        TmStatus::Pass
                    } else {
                        TmStatus::Stale
                    },
                ),
            ),
        },
        _ => (BftValidationStage::Finished, BftValidationStep::Done(TmStatus::Indeterminate)),
    }
}

impl BftValidation {
    /// Begin validating `new_block`: check that it extends the current BFT tip
    /// and has a finalization candidate, then ask for that candidate's height.
    pub fn start(
        mode: BftValidationMode,
        new_block: &BftBlock,
        fat_pointer_to_tip: &FatPointerToBftBlock2,
        confirmation_depth: u64,
    ) -> (r: (BftValidation, BftValidationStep))
        requires
            block_writable(new_block@),
        ensures
            r.0.mode == mode,
            r.0.confirmation_depth == confirmation_depth,
            r.0.declared_candidate_height == new_block.finalization_candidate_height,
            match spec_validation_start(new_block@, fat_pointer_to_tip@) {
                Some(status) => r.0.stage == BftValidationStage::Finished && r.1
                    == BftValidationStep::Done(status),
                None => {
                    &&& r.0.stage == BftValidationStage::AwaitHeightOfHash
                    &&& r.0.candidate_hash@ == header_hash(new_block@.headers[0])
                    &&& r.1 == BftValidationStep::Query(
                        BftValidationQuery::HeightOfHash(r.0.candidate_hash),
                    )
                },
            },
    {
        let mut v = BftValidation {
            mode,
            confirmation_depth,
            declared_candidate_height: new_block.finalization_candidate_height,
            candidate_hash: [0u8; 32],
            stage: BftValidationStage::Finished,
        };
        let previous = new_block.previous_block_fat_ptr.points_at_block_hash();
        let tip = fat_pointer_to_tip.points_at_block_hash();
        if !previous.equals(&tip) {
            return (v, BftValidationStep::Done(TmStatus::Fail));
        }
        if new_block.headers.len() == 0 {
            return (v, BftValidationStep::Done(TmStatus::Fail));
        }
        proof {
            assert(new_block@.headers[0] == new_block.headers@[0]@);
        }
        let hash = new_block.headers[0].hash();
        v.candidate_hash = hash;
        v.stage = BftValidationStage::AwaitHeightOfHash;
        (v, BftValidationStep::Query(BftValidationQuery::HeightOfHash(hash)))
    }

    /// Continue with the answer to the pending lookup.
    pub fn resume(&mut self, reply: BftValidationReply) -> (r: BftValidationStep)
        ensures
            final(self).stage == spec_validation_resume(*old(self), reply).0,
            r == spec_validation_resume(*old(self), reply).1,
            final(self).mode == old(self).mode,
            final(self).confirmation_depth == old(self).confirmation_depth,
            final(self).declared_candidate_height == old(self).declared_candidate_height,
            final(self).candidate_hash == old(self).candidate_hash,
    {
        let stage = self.stage;
        self.stage = BftValidationStage::Finished;
        match (stage, reply) {
            (BftValidationStage::AwaitHeightOfHash, BftValidationReply::HeightOfHash(h)) => match h {
                None => BftValidationStep::Done(TmStatus::Indeterminate),
                Some(observed) => {
                    if self.declared_candidate_height != observed.0 {
                        BftValidationStep::Done(TmStatus::Fail)
                    } else if self.mode == BftValidationMode::Decided {
                        BftValidationStep::Done(TmStatus::Pass)
                    } else {
                        self.stage = BftValidationStage::AwaitTip(observed);
                        BftValidationStep::Query(BftValidationQuery::Tip)
                    }
                },
            },
            (BftValidationStage::AwaitTip(observed), BftValidationReply::Tip(t)) => match t {
                None => BftValidationStep::Done(TmStatus::Indeterminate),
                Some(tip) => match finality_candidate_height_at_depth(tip, self.confirmation_depth) {
                    None => BftValidationStep::Done(TmStatus::Indeterminate),
                    Some(current) => {
                        self.stage = BftValidationStage::AwaitHashAtHeight(observed, current);
                        BftValidationStep::Query(BftValidationQuery::HashAtHeight(current))
                    },
                },
            },
            (
                BftValidationStage::AwaitHashAtHeight(observed, current),
                BftValidationReply::HashAtHeight(h),
            ) => match h {
                None => BftValidationStep::Done(TmStatus::Indeterminate),
                Some(current_hash) => BftValidationStep::Done(
                    proposal_status_against_current_stream(
                        (observed, self.candidate_hash),
                        (current, current_hash),
                    ),
                ),
            },
            _ => BftValidationStep::Done(TmStatus::Indeterminate),
        }
    }
}

/// The verdict on a BFT block, as a function of the answers the state
/// service gives: the height of the candidate hash, the tip height, and the
/// best-chain hash at the current candidate height.
pub open spec fn spec_bft_block_status(
    mode: BftValidationMode,
    block: BftBlockView,
    fat_pointer_to_tip: FatPointerView,
    confirmation_depth: u64,
    height_of_candidate: Option<BlockHeight>,
    tip: Option<BlockHeight>,
    hash_at_current_height: Option<[u8; 32]>,
) -> TmStatus {
    match spec_validation_start(block, fat_pointer_to_tip) {
        Some(status) => status,
        None => match height_of_candidate {
            None => TmStatus::Indeterminate,
            Some(observed) => if block.finalization_candidate_height != observed.0 {
                TmStatus::Fail
            } else if mode == BftValidationMode::Decided {
                TmStatus::Pass
            } else {
                match tip {
                    None => TmStatus::Indeterminate,
                    Some(t) => match spec_finality_candidate_height_at_depth(t.0, confirmation_depth) {
                        None => TmStatus::Indeterminate,
                        Some(current) => match hash_at_current_height {
                            None => TmStatus::Indeterminate,
                            Some(h) => if observed.0 == current && header_hash(block.headers[0])
                                == h@ {
                                TmStatus::Pass
                            } else {
                                TmStatus::Stale
                            },
                        },
                    },
                }
            },
        },
    }
}

/// Answering each lookup a validation asks for, in turn, leads to the verdict
/// of [spec_bft_block_status]; a decided block is never judged stale.
pub proof fn lemma_validation_reaches_status(
    mode: BftValidationMode,
    block: BftBlockView,
    fat_pointer_to_tip: FatPointerView,
    confirmation_depth: u64,
    height_of_candidate: Option<BlockHeight>,
    tip: Option<BlockHeight>,
    hash_at_current_height: Option<[u8; 32]>,
    v0: BftValidation,
)
    requires
        spec_validation_start(block, fat_pointer_to_tip) is None,
        v0.mode == mode,
        v0.confirmation_depth == confirmation_depth,
        v0.declared_candidate_height == block.finalization_candidate_height,
        v0.candidate_hash@ == header_hash(block.headers[0]),
        v0.stage == BftValidationStage::AwaitHeightOfHash,
    ensures
        ({
            let (s1, step1) = spec_validation_resume(
                v0,
                BftValidationReply::HeightOfHash(height_of_candidate),
            );
            let v1 = BftValidation { stage: s1, ..v0 };
            let (s2, step2) = spec_validation_resume(v1, BftValidationReply::Tip(tip));
            let v2 = BftValidation { stage: s2, ..v1 };
            let (_, step3) = spec_validation_resume(
                v2,
                BftValidationReply::HashAtHeight(hash_at_current_height),
            );
            let status = spec_bft_block_status(
                mode,
                block,
                fat_pointer_to_tip,
                confirmation_depth,
                height_of_candidate,
                tip,
                hash_at_current_height,
            );
            &&& step1 matches BftValidationStep::Done(st) ==> st == status
            &&& step1 is Query ==> (step2 matches BftValidationStep::Done(st) ==> st == status)
            &&& step1 is Query && step2 is Query ==> step3 == BftValidationStep::Done(status)
            &&& mode == BftValidationMode::Decided ==> status != TmStatus::Stale
        }),
{
}


/// The state of the Crosslink finality service.
pub struct TflState {
    /// This node's finalizer public key.
    pub my_public_key: [u8; 32],
    /// The latest PoW block known final, with its hash.
    pub latest_final_block: Option<(BlockHeight, [u8; 32])>,
    /// Whether the PoW chain has reached the Crosslink activation height.
    pub tfl_is_activated: bool,
    /// BFT engine messages seen, one bit per message kind.
    pub bft_msg_flags: u64,
    /// BFT engine errors seen, one bit per message kind.
    pub bft_err_flags: u64,
    /// The decided BFT blocks; the block at BFT height `h` is at index `h - 1`.
    pub bft_blocks: Vec<BftBlock>,
    /// The fat pointer to the latest decided BFT block.
    pub fat_pointer_to_tip: FatPointerToBftBlock2,
    /// A roster command string set by this node, overriding the engine's.
    pub our_set_bft_string: Option<String>,
    /// The roster command string the BFT engine last reported.
    pub active_bft_string: Option<String>,
    /// The names finalizers registered under.
    pub validators_keys_to_names: FinalizerNames,
    /// The finalizer roster at the current height.
    pub validators_at_current_height: Vec<MalValidator>,
    /// The final PoW block up to which rewards and roster commands were applied.
    pub current_bc_final: Option<(BlockHeight, [u8; 32])>,
    /// The key of BFT block identity hashes: the BFT engine's value-id key,
    /// or none in test mode, where the hashes are unkeyed.
    pub block_hash_key: Option<[u8; 32]>,
}

/// Every stored BFT block can be written out, and so hashed.
pub open spec fn stored_blocks_writable(blocks: Seq<BftBlock>) -> bool {
    forall|i: int| 0 <= i < blocks.len() ==> block_writable(#[trigger] blocks[i]@)
}

/// The placeholder stored at BFT height index `i` before the block for it is decided.
pub open spec fn placeholder_block(i: int) -> BftBlockView {
    BftBlockView {
        version: 0,
        height: i as u32,
        previous_block_fat_ptr: FatPointerView {
            vote: Seq::new(44, |j: int| 0u8),
            signatures: Seq::<SignatureView>::empty(),
        },
        finalization_candidate_height: 0,
        headers: Seq::empty(),
    }
}

/// The stored blocks, extended with placeholders so that index `insert_i` exists.
pub open spec fn padded_blocks(blocks: Seq<BftBlockView>, insert_i: int) -> Seq<BftBlockView> {
    if insert_i < blocks.len() {
        blocks
    } else {
        blocks + Seq::new((insert_i + 1 - blocks.len()) as nat, |k: int| placeholder_block(blocks.len() + k))
    }
}

/// Why a decided block is refused.
#[derive(Clone, Copy, Debug, PartialEq, Eq, Structural)]
pub enum DecidedBlockError {
    /// The fat pointer does not point at the block.
    FatPointerMismatch,
    /// The fat pointer's signatures do not verify.
    InvalidSignatures,
    /// The signers do not hold a quorum of the current roster.
    NoQuorum,
    /// The block claims BFT height zero.
    ZeroHeight,
    /// The block does not point at the block stored below it.
    PreviousBlockMismatch,
    /// A block above the first names no previous block.
    MissingPreviousBlock,
    /// A block is already stored at the block's height.
    HeightOccupied,
    /// The block carries no PoW headers.
    NoHeaders,
}

/// What checking a decided block's fat pointer finds, given whether its
/// signatures verify.
pub open spec fn spec_check_decided_block(
    roster: Seq<MalValidator>,
    hash_key: Option<[u8; 32]>,
    block: BftBlockView,
    fat_pointer: FatPointerView,
    signatures_valid: bool,
) -> Result<(), DecidedBlockError> {
    if fat_pointer.vote.subrange(0, 32) != block_identity_hash(hash_key, block) {
        Err(DecidedBlockError::FatPointerMismatch)
    } else if !signatures_valid {
        Err(DecidedBlockError::InvalidSignatures)
    } else if !has_roster_quorum(fat_pointer, roster) {
        Err(DecidedBlockError::NoQuorum)
    } else {
        Ok(())
    }
}

/// Check a decided block's fat pointer, given whether its signatures verify:
/// it must point at the block and carry a quorum of the current roster.
pub fn check_decided_block_with_signatures(
    state: &TflState,
    new_block: &BftBlock,
    fat_pointer: &FatPointerToBftBlock2,
    signatures_valid: bool,
) -> (r: Result<(), DecidedBlockError>)
    requires
        block_writable(new_block@),
        fat_pointer.signatures@.len() <= u32::MAX,
        state.validators_at_current_height@.len() <= u32::MAX,
    ensures
        r == spec_check_decided_block(
            state.validators_at_current_height@,
            state.block_hash_key,
            new_block@,
            fat_pointer@,
            signatures_valid,
        ),
{
    let pointed = fat_pointer.points_at_block_hash();
    let hash = new_block.blake3_hash(&state.block_hash_key);
    if !pointed.equals(&hash) {
        return Err(DecidedBlockError::FatPointerMismatch);
    }
    if !signatures_valid {
        return Err(DecidedBlockError::InvalidSignatures);
    }
    if !fat_pointer_has_roster_quorum(fat_pointer, state.validators_at_current_height.as_slice()) {
        return Err(DecidedBlockError::NoQuorum);
    }
    Ok(())
}

/// Check a decided block's fat pointer, verifying its signatures; when each
/// signature is valid on its own the check goes as with verified signatures,
/// and when some signature's `s` is not below the group order it goes as with
/// failed signatures.
pub fn check_decided_block(
    state: &TflState,
    new_block: &BftBlock,
    fat_pointer: &FatPointerToBftBlock2,
) -> (r: Result<(), DecidedBlockError>)
    requires
        block_writable(new_block@),
        fat_pointer.signatures@.len() <= u32::MAX,
        state.validators_at_current_height@.len() <= u32::MAX,
    ensures
        r == spec_check_decided_block(state.validators_at_current_height@, state.block_hash_key, new_block@, fat_pointer@, true)
            || r == spec_check_decided_block(
            state.validators_at_current_height@,
            state.block_hash_key,
            new_block@,
            fat_pointer@,
            false,
        ),
        fat_pointer_signatures_valid(fat_pointer@) ==> r == spec_check_decided_block(
            state.validators_at_current_height@,
            state.block_hash_key,
            new_block@,
            fat_pointer@,
            true,
        ),
        (exists|i: int|
            0 <= i < fat_pointer@.signatures.len() && !ed25519_s_canonical(
                (#[trigger] fat_pointer@.signatures[i]).vote_signature,
            )) ==> r == spec_check_decided_block(
            state.validators_at_current_height@,
            state.block_hash_key,
            new_block@,
            fat_pointer@,
            false,
        ),
{
    let signatures_valid = fat_pointer.validate_signatures();
    check_decided_block_with_signatures(state, new_block, fat_pointer, signatures_valid)
}

/// What recording a decided block at its height finds.
pub open spec fn spec_record_decided_block(
    hash_key: Option<[u8; 32]>,
    blocks: Seq<BftBlockView>,
    block: BftBlockView,
) -> Result<
    (),
    DecidedBlockError,
> {
    if block.height == 0 {
        Err(DecidedBlockError::ZeroHeight)
    } else {
        let insert_i = block.height - 1;
        let padded = padded_blocks(blocks, insert_i);
        if insert_i > 0 && block_identity_hash(hash_key, padded[insert_i - 1])
            != block.previous_block_fat_ptr.vote.subrange(0, 32) {
            Err(DecidedBlockError::PreviousBlockMismatch)
        } else if insert_i > 0 && block.previous_block_fat_ptr.vote.subrange(0, 32) == Seq::new(
            32,
            |j: int| 0u8,
        ) {
            Err(DecidedBlockError::MissingPreviousBlock)
        } else if padded[insert_i].headers.len() != 0 {
            Err(DecidedBlockError::HeightOccupied)
        } else if block.headers.len() == 0 {
            Err(DecidedBlockError::NoHeaders)
        } else {
            Ok(())
        }
    }
}

/// A recorded decided block is what a read at its height gives back, every
/// block already stored at another height stays as it was, and the store
/// grows only up to that height.
pub proof fn lemma_recorded_block_read_back(
    hash_key: Option<[u8; 32]>,
    blocks: Seq<BftBlockView>,
    block: BftBlockView,
)
    requires
        spec_record_decided_block(hash_key, blocks, block) is Ok,
    ensures
        ({
            let stored = padded_blocks(blocks, block.height - 1).update(block.height - 1, block);
            &&& 1 <= block.height <= stored.len()
            &&& stored[block.height - 1] == block
            &&& forall|i: int|
                0 <= i < blocks.len() && i != block.height - 1 ==> #[trigger] stored[i] == blocks[i]
            &&& stored.len() == if block.height <= blocks.len() {
                blocks.len() as int
            } else {
                block.height as int
            }
        }),
{
}

/// Once a height holds a recorded decided block, no other block is recorded
/// at that height.
pub proof fn lemma_decided_height_recorded_once(
    hash_key: Option<[u8; 32]>,
    blocks: Seq<BftBlockView>,
    block: BftBlockView,
    other: BftBlockView,
)
    requires
        spec_record_decided_block(hash_key, blocks, block) is Ok,
        other.height == block.height,
    ensures
        spec_record_decided_block(
            hash_key,
            padded_blocks(blocks, block.height - 1).update(block.height - 1, block),
            other,
        ) is Err,
{
    let stored = padded_blocks(blocks, block.height - 1).update(block.height - 1, block);
    assert(padded_blocks(stored, other.height - 1) == stored);
}

/// Whether all 32 bytes are zero.
fn is_zero_hash(h: &[u8; 32]) -> (r: bool)
    ensures
        r == (h@ == Seq::new(32, |j: int| 0u8)),
{
    let mut k: usize = 0;
    while k < 32
        invariant
            0 <= k <= 32,
            h@.len() == 32,
            forall|j: int| 0 <= j < k ==> h@[j] == 0,
        decreases 32 - k,
    {
        if h[k] != 0 {
            proof {
                assert(h@[k as int] != Seq::new(32, |j: int| 0u8)[k as int]);
            }
            return false;
        }
        k = k + 1;
    }
    proof {
        assert(h@ =~= Seq::new(32, |j: int| 0u8));
    }
    true
}

/// The all-zero previous-block pointer of a placeholder.
fn null_pointer() -> (r: FatPointerToBftBlock2)
    ensures
        r@ == placeholder_block(0).previous_block_fat_ptr,
{
    FatPointerToBftBlock2::null()
}

/// Record a decided block at its BFT height, with the fat pointer to it and
/// its final PoW block: heights not yet decided below it are filled with
/// placeholders, and the block must extend the block stored below it and
/// take a free height.
pub fn record_decided_block(
    state: &mut TflState,
    new_block: BftBlock,
    fat_pointer: FatPointerToBftBlock2,
    new_final_height: BlockHeight,
    new_final_hash: [u8; 32],
) -> (r: Result<(), DecidedBlockError>)
    requires
        stored_blocks_writable(old(state).bft_blocks@),
        block_writable(new_block@),
    ensures
        r == spec_record_decided_block(
            old(state).block_hash_key,
            old(state).bft_blocks@.map_values(|b: BftBlock| b@),
            new_block@,
        ),
        final(state).block_hash_key == old(state).block_hash_key,
        stored_blocks_writable(final(state).bft_blocks@),
        final(state).my_public_key == old(state).my_public_key,
        final(state).tfl_is_activated == old(state).tfl_is_activated,
        final(state).bft_msg_flags == old(state).bft_msg_flags,
        final(state).bft_err_flags == old(state).bft_err_flags,
        final(state).our_set_bft_string == old(state).our_set_bft_string,
        final(state).active_bft_string == old(state).active_bft_string,
        final(state).validators_keys_to_names@ == old(state).validators_keys_to_names@,
        final(state).validators_at_current_height@ == old(state).validators_at_current_height@,
        final(state).current_bc_final == old(state).current_bc_final,
        new_block.height == 0 ==> final(state).bft_blocks@ == old(state).bft_blocks@,
        match r {
            Ok(()) => {
                &&& final(state).bft_blocks@.map_values(|b: BftBlock| b@) == padded_blocks(
                    old(state).bft_blocks@.map_values(|b: BftBlock| b@),
                    new_block.height - 1,
                ).update(new_block.height - 1, new_block@)
                &&& final(state).fat_pointer_to_tip@ == fat_pointer@
                &&& final(state).latest_final_block == Some((new_final_height, new_final_hash))
            },
            Err(_) => {
                &&& new_block.height > 0 ==> final(state).bft_blocks@.map_values(|b: BftBlock| b@)
                    == padded_blocks(
                    old(state).bft_blocks@.map_values(|b: BftBlock| b@),
                    new_block.height - 1,
                )
                &&& final(state).fat_pointer_to_tip@ == old(state).fat_pointer_to_tip@
                &&& final(state).latest_final_block == old(state).latest_final_block
            },
        },
{
    let ghost views0 = state.bft_blocks@.map_values(|b: BftBlock| b@);
    if new_block.height == 0 {
        return Err(DecidedBlockError::ZeroHeight);
    }
    let insert_i: usize = (new_block.height - 1) as usize;
    let mut blocks: Vec<BftBlock> = Vec::new();
    std::mem::swap(&mut blocks, &mut state.bft_blocks);
    let mut i: usize = blocks.len();
    while i <= insert_i
        invariant
            i >= views0.len(),
            i == views0.len() || i <= insert_i + 1,
            blocks@.len() == i,
            insert_i < u32::MAX,
            stored_blocks_writable(blocks@),
            blocks@.map_values(|b: BftBlock| b@) =~= views0 + Seq::new(
                (i - views0.len()) as nat,
                |k: int| placeholder_block(views0.len() + k),
            ),
        decreases insert_i + 1 - i,
    {
        let placeholder = BftBlock {
            version: 0,
            height: i as u32,
            previous_block_fat_ptr: null_pointer(),
            finalization_candidate_height: 0,
            headers: Vec::new(),
        };
        proof {
            assert(placeholder@.headers =~= Seq::<crate::chain::HeaderView>::empty());
            assert(placeholder@ == placeholder_block(i as int));
        }
        let ghost before = blocks@;
        blocks.push(placeholder);
        proof {
            assert(blocks@.map_values(|b: BftBlock| b@) =~= before.map_values(|b: BftBlock| b@).push(
                placeholder@,
            ));
            assert forall|j: int| 0 <= j < blocks@.len() implies block_writable(
                #[trigger] blocks@[j]@,
            ) by {
                if j < before.len() {
                    assert(blocks@[j] == before[j]);
                }
            }
        }
        i = i + 1;
    }
    state.bft_blocks = blocks;
    let ghost padded = padded_blocks(views0, insert_i as int);
    proof {
        assert(state.bft_blocks@.map_values(|b: BftBlock| b@) =~= padded);
        assert(state.bft_blocks@.len() > insert_i);
    }
    let previous_hash = new_block.previous_block_fat_ptr.points_at_block_hash();
    if insert_i > 0 {
        proof {
            assert(state.bft_blocks@[insert_i - 1]@ == padded[insert_i - 1]);
        }
        let below = state.bft_blocks[insert_i - 1].blake3_hash(&state.block_hash_key);
        if !below.equals(&previous_hash) {
            return Err(DecidedBlockError::PreviousBlockMismatch);
        }
        if is_zero_hash(&previous_hash.0) {
            return Err(DecidedBlockError::MissingPreviousBlock);
        }
    }
    proof {
        assert(state.bft_blocks@[insert_i as int]@ == padded[insert_i as int]);
    }
    if state.bft_blocks[insert_i].headers.len() != 0 {
        return Err(DecidedBlockError::HeightOccupied);
    }
    if new_block.headers.len() == 0 {
        return Err(DecidedBlockError::NoHeaders);
    }
    let ghost before = state.bft_blocks@;
    state.bft_blocks.set(insert_i, new_block);
    state.fat_pointer_to_tip = fat_pointer;
    state.latest_final_block = Some((new_final_height, new_final_hash));
    proof {
        assert(state.bft_blocks@.map_values(|b: BftBlock| b@) =~= padded.update(
            insert_i as int,
            new_block@,
        ));
        assert forall|j: int| 0 <= j < state.bft_blocks@.len() implies block_writable(
            #[trigger] state.bft_blocks@[j]@,
        ) by {
            if j != insert_i {
                assert(state.bft_blocks@[j] == before[j]);
            }
        }
    }
    Ok(())
}


/// A newly finalized PoW block, with the staking commands of its
/// transactions when the block itself could be read.
#[derive(Clone, Debug, PartialEq, Eq)]
pub struct FinalizedPowBlock {
    /// The block height.
    pub height: BlockHeight,
    /// The block hash.
    pub hash: [u8; 32],
    /// The staking commands of the block's transactions, in order; `None`
    /// when the block could not be read.
    pub staking_actions: Option<Vec<StakingAction>>,
}

/// Whether a finalized block is the already-processed boundary block.
pub open spec fn is_boundary(current_bc_final: Option<(BlockHeight, [u8; 32])>, b: FinalizedPowBlock) -> bool {
    match current_bc_final {
        Some((_, hash)) => hash@ == b.hash@,
        None => false,
    }
}

/// The roster after one finalized block: the block reward is apportioned,
/// then the block's staking commands are applied.
pub open spec fn roster_after_finalized_block(roster: Seq<MalValidator>, b: FinalizedPowBlock) -> Seq<
    MalValidator,
> {
    let rewarded = apportioned(roster, POS_TOTAL_REWARD);
    match b.staking_actions {
        Some(actions) => roster_after_actions(rewarded, actions@),
        None => rewarded,
    }
}

/// The names after one finalized block.
pub open spec fn names_after_finalized_block(
    roster: Seq<MalValidator>,
    names: Map<Seq<u8>, Seq<char>>,
    b: FinalizedPowBlock,
) -> Map<Seq<u8>, Seq<char>> {
    match b.staking_actions {
        Some(actions) => names_after_actions(apportioned(roster, POS_TOTAL_REWARD), names, actions@),
        None => names,
    }
}

/// The roster after the finalized blocks, skipping the boundary block.
pub open spec fn roster_after_finalized(
    roster: Seq<MalValidator>,
    current_bc_final: Option<(BlockHeight, [u8; 32])>,
    blocks: Seq<FinalizedPowBlock>,
) -> Seq<MalValidator>
    decreases blocks.len(),
{
    if blocks.len() == 0 {
        roster
    } else {
        let r = roster_after_finalized(roster, current_bc_final, blocks.drop_last());
        if is_boundary(current_bc_final, blocks.last()) {
            r
        } else {
            roster_after_finalized_block(r, blocks.last())
        }
    }
}

/// Processing one newly finalized PoW block that is not the previous final
/// block: the block reward is apportioned over the roster before the block's
/// staking commands apply, and when the roster has stake the reward raises
/// its total stake by exactly the reward (each share as
/// [crate::roster::lemma_apportioning_exact_shares] states).
pub proof fn lemma_finalized_block_apportions_reward(
    roster: Seq<MalValidator>,
    current_bc_final: Option<(BlockHeight, [u8; 32])>,
    b: FinalizedPowBlock,
)
    requires
        !is_boundary(current_bc_final, b),
        apportioning_fits(roster, POS_TOTAL_REWARD),
        crate::fat_pointer::total_voting_power(roster) > 0,
    ensures
        roster_after_finalized(roster, current_bc_final, seq![b]) == match b.staking_actions {
            Some(actions) => roster_after_actions(apportioned(roster, POS_TOTAL_REWARD), actions@),
            None => apportioned(roster, POS_TOTAL_REWARD),
        },
        crate::fat_pointer::total_voting_power(apportioned(roster, POS_TOTAL_REWARD))
            == crate::fat_pointer::total_voting_power(roster) + POS_TOTAL_REWARD,
{
    crate::roster::lemma_apportioning_exact_shares(roster, POS_TOTAL_REWARD);
    assert(seq![b].drop_last() =~= Seq::<FinalizedPowBlock>::empty());
    assert(roster_after_finalized(roster, current_bc_final, Seq::<FinalizedPowBlock>::empty())
        == roster);
    assert(seq![b].last() == b);
}

/// The names after the finalized blocks, skipping the boundary block.
pub open spec fn names_after_finalized(
    roster: Seq<MalValidator>,
    names: Map<Seq<u8>, Seq<char>>,
    current_bc_final: Option<(BlockHeight, [u8; 32])>,
    blocks: Seq<FinalizedPowBlock>,
) -> Map<Seq<u8>, Seq<char>>
    decreases blocks.len(),
{
    if blocks.len() == 0 {
        names
    } else {
        let n = names_after_finalized(roster, names, current_bc_final, blocks.drop_last());
        if is_boundary(current_bc_final, blocks.last()) {
            n
        } else {
            names_after_finalized_block(
                roster_after_finalized(roster, current_bc_final, blocks.drop_last()),
                n,
                blocks.last(),
            )
        }
    }
}

/// The finalized blocks that are announced: all but the boundary block.
pub open spec fn announced_blocks(
    current_bc_final: Option<(BlockHeight, [u8; 32])>,
    blocks: Seq<FinalizedPowBlock>,
) -> Seq<(BlockHeight, Seq<u8>)>
    decreases blocks.len(),
{
    if blocks.len() == 0 {
        Seq::empty()
    } else {
        let a = announced_blocks(current_bc_final, blocks.drop_last());
        if is_boundary(current_bc_final, blocks.last()) {
            a
        } else {
            a.push((blocks.last().height, blocks.last().hash@))
        }
    }
}

/// Every reward and staking command, applied in turn, fits in a `u64`.
pub open spec fn finalized_fits(
    roster: Seq<MalValidator>,
    current_bc_final: Option<(BlockHeight, [u8; 32])>,
    blocks: Seq<FinalizedPowBlock>,
) -> bool
    decreases blocks.len(),
{
    if blocks.len() == 0 {
        true
    } else {
        let r = roster_after_finalized(roster, current_bc_final, blocks.drop_last());
        &&& finalized_fits(roster, current_bc_final, blocks.drop_last())
        &&& (!is_boundary(current_bc_final, blocks.last()) ==> {
            &&& apportioning_fits(r, POS_TOTAL_REWARD)
            &&& match blocks.last().staking_actions {
                Some(actions) => actions_fit(apportioned(r, POS_TOTAL_REWARD), actions@),
                None => true,
            }
        })
    }
}

proof fn lemma_finalized_fits_prefix(
    roster: Seq<MalValidator>,
    current_bc_final: Option<(BlockHeight, [u8; 32])>,
    blocks: Seq<FinalizedPowBlock>,
    n: int,
)
    requires
        finalized_fits(roster, current_bc_final, blocks),
        0 <= n <= blocks.len(),
    ensures
        finalized_fits(roster, current_bc_final, blocks.subrange(0, n)),
    decreases blocks.len() - n,
{
    if n < blocks.len() {
        lemma_finalized_fits_prefix(roster, current_bc_final, blocks, n + 1);
        assert(blocks.subrange(0, n + 1).drop_last() == blocks.subrange(0, n));
    } else {
        assert(blocks.subrange(0, n) == blocks);
    }
}

/// Where the sequence of newly finalized PoW blocks starts: at the block up
/// to which the roster is current, or at the new final block when there is
/// none yet. `None` when no block is final.
pub fn finalized_sequence_start(state: &TflState) -> (r: Option<[u8; 32]>)
    ensures
        r == match state.latest_final_block {
            None => None,
            Some((_, final_hash)) => match state.current_bc_final {
                Some((_, hash)) => Some(hash),
                None => Some(final_hash),
            },
        },
{
    match state.latest_final_block {
        None => None,
        Some((_, final_hash)) => match state.current_bc_final {
            Some((_, hash)) => Some(hash),
            None => Some(final_hash),
        },
    }
}

/// Apply the newly finalized PoW blocks, in order: for each one but the
/// boundary block already applied, apportion the block reward among the
/// finalizers and apply the block's staking commands. The roster then counts
/// as current up to the latest final block. Returns the blocks to announce.
pub fn apply_finalized_blocks(state: &mut TflState, blocks: &[FinalizedPowBlock]) -> (r: Vec<
    (BlockHeight, [u8; 32]),
>)
    requires
        old(state).latest_final_block is Some ==> finalized_fits(
            old(state).validators_at_current_height@,
            old(state).current_bc_final,
            blocks@,
        ),
    ensures
        final(state).current_bc_final == old(state).latest_final_block,
        final(state).latest_final_block == old(state).latest_final_block,
        final(state).bft_blocks@ == old(state).bft_blocks@,
        final(state).fat_pointer_to_tip == old(state).fat_pointer_to_tip,
        final(state).tfl_is_activated == old(state).tfl_is_activated,
        old(state).latest_final_block is None ==> {
            &&& r@.len() == 0
            &&& final(state).validators_at_current_height@ == old(state).validators_at_current_height@
            &&& final(state).validators_keys_to_names@ == old(state).validators_keys_to_names@
        },
        old(state).latest_final_block is Some ==> {
            &&& final(state).validators_at_current_height@ == roster_after_finalized(
                old(state).validators_at_current_height@,
                old(state).current_bc_final,
                blocks@,
            )
            &&& final(state).validators_keys_to_names@ == names_after_finalized(
                old(state).validators_at_current_height@,
                old(state).validators_keys_to_names@,
                old(state).current_bc_final,
                blocks@,
            )
            &&& r@.map_values(|x: (BlockHeight, [u8; 32])| (x.0, x.1@)) == announced_blocks(
                old(state).current_bc_final,
                blocks@,
            )
        },
{
    let mut announced: Vec<(BlockHeight, [u8; 32])> = Vec::new();
    if state.latest_final_block.is_none() {
        state.current_bc_final = state.latest_final_block;
        return announced;
    }
    let ghost roster0 = state.validators_at_current_height@;
    let ghost names0 = state.validators_keys_to_names@;
    let ghost boundary = state.current_bc_final;
    let mut validators: Vec<MalValidator> = Vec::new();
    std::mem::swap(&mut validators, &mut state.validators_at_current_height);
    let mut names = FinalizerNames::new();
    std::mem::swap(&mut names, &mut state.validators_keys_to_names);
    let mut i: usize = 0;
    while i < blocks.len()
        invariant
            0 <= i <= blocks@.len(),
            finalized_fits(roster0, boundary, blocks@),
            validators@ == roster_after_finalized(roster0, boundary, blocks@.subrange(0, i as int)),
            names@ == names_after_finalized(roster0, names0, boundary, blocks@.subrange(0, i as int)),
            announced@.map_values(|x: (BlockHeight, [u8; 32])| (x.0, x.1@)) == announced_blocks(
                boundary,
                blocks@.subrange(0, i as int),
            ),
            boundary == state.current_bc_final,
        decreases blocks@.len() - i,
    {
        let ghost prefix = blocks@.subrange(0, i as int);
        let ghost next = blocks@.subrange(0, i + 1);
        proof {
            assert(next.drop_last() == prefix);
            assert(next.last() == blocks@[i as int]);
            lemma_finalized_fits_prefix(roster0, boundary, blocks@, i + 1);
        }
        let b = &blocks[i];
        let skip = match state.current_bc_final {
            Some((_, hash)) => crate::fat_pointer::bytes_equal(&hash, &b.hash),
            None => false,
        };
        if !skip {
            apportion_finalizer_rewards(&mut validators, POS_TOTAL_REWARD);
            match &b.staking_actions {
                Some(actions) => {
                    let _applied = update_roster_for_block(&mut validators, &mut names, actions.as_slice());
                },
                None => {},
            }
            let ghost before = announced@;
            announced.push((b.height, b.hash));
            proof {
                assert(announced@.map_values(|x: (BlockHeight, [u8; 32])| (x.0, x.1@))
                    =~= before.map_values(|x: (BlockHeight, [u8; 32])| (x.0, x.1@)).push(
                    (b.height, b.hash@),
                ));
            }
        }
        i = i + 1;
    }
    proof {
        assert(blocks@.subrange(0, blocks@.len() as int) == blocks@);
    }
    state.validators_at_current_height = validators;
    state.validators_keys_to_names = names;
    state.current_bc_final = state.latest_final_block;
    announced
}


/// The roster handed to the BFT engine: the current roster, with this node
/// appended without stake when its key holds no roster address.
pub open spec fn spec_roster_with_self(roster: Seq<MalValidator>, my_public_key: [u8; 32]) -> Seq<
    MalValidator,
> {
    if exists|i: int| 0 <= i < roster.len() && (#[trigger] roster[i]).address.0@ == my_public_key@ {
        roster
    } else {
        roster.push(
            MalValidator {
                address: crate::fat_pointer::MalPublicKey2(my_public_key),
                public_key: my_public_key,
                voting_power: 0,
            },
        )
    }
}

/// The roster to hand to the BFT engine.
pub fn current_validator_set(state: &TflState) -> (r: Vec<MalValidator>)
    ensures
        r@ == spec_roster_with_self(state.validators_at_current_height@, state.my_public_key),
{
    let roster = &state.validators_at_current_height;
    let mut out: Vec<MalValidator> = Vec::new();
    let mut found = false;
    let mut i: usize = 0;
    while i < roster.len()
        invariant
            0 <= i <= roster@.len(),
            out@ == roster@.subrange(0, i as int),
            found <==> exists|k: int| 0 <= k < i && (#[trigger] roster@[k]).address.0@
                == state.my_public_key@,
        decreases roster@.len() - i,
    {
        let v = roster[i];
        if crate::fat_pointer::bytes_equal(&v.address.0, &state.my_public_key) {
            found = true;
        }
        out.push(v);
        proof {
            assert(out@ == roster@.subrange(0, i + 1));
            if v.address.0@ == state.my_public_key@ {
                assert(roster@[i as int].address.0@ == state.my_public_key@);
            }
            if exists|k: int| 0 <= k < i + 1 && (#[trigger] roster@[k]).address.0@
                == state.my_public_key@ {
                let k = choose|k: int| 0 <= k < i + 1 && (#[trigger] roster@[k]).address.0@
                    == state.my_public_key@;
                if k < i {
                    assert(0 <= k < i && roster@[k].address.0@ == state.my_public_key@);
                }
            }
        }
        i = i + 1;
    }
    proof {
        assert(roster@.subrange(0, roster@.len() as int) == roster@);
    }
    if !found {
        out.push(
            MalValidator {
                address: crate::fat_pointer::MalPublicKey2(state.my_public_key),
                public_key: state.my_public_key,
                voting_power: 0,
            },
        );
    }
    out
}

/// The roster the BFT engine is handed after a decided block.
pub fn sorted_roster(state: &TflState) -> (r: Vec<SortedRosterMember>)
    requires
        crate::fat_pointer::total_voting_power(state.validators_at_current_height@) <= u64::MAX,
    ensures
        r@.map_values(|m: SortedRosterMember| crate::roster::without_cumulative(m)).to_multiset()
            == state.validators_at_current_height@.map_values(
            |v: MalValidator| crate::roster::unsorted_member(v),
        ).to_multiset(),
        forall|i: int, j: int|
            0 <= i < j < r@.len() ==> crate::roster::ranks_before(r@[i], r@[j]),
        forall|i: int|
            0 <= i < r@.len() ==> (#[trigger] r@[i]).cumulative_stake == crate::roster::stake_sum(
                r@.subrange(0, i + 1),
            ),
{
    tenderlink_roster_from_internal(state.validators_at_current_height.as_slice())
}

/// Record BFT engine messages and errors seen.
pub fn push_new_bft_msg_flags(state: &mut TflState, bft_msg_flags: u64, bft_err_flags: u64)
    ensures
        final(state).bft_msg_flags == old(state).bft_msg_flags | bft_msg_flags,
        final(state).bft_err_flags == old(state).bft_err_flags | bft_err_flags,
        final(state).latest_final_block == old(state).latest_final_block,
        final(state).tfl_is_activated == old(state).tfl_is_activated,
{
    state.bft_msg_flags = state.bft_msg_flags | bft_msg_flags;
    state.bft_err_flags = state.bft_err_flags | bft_err_flags;
}

/// The PoW height a new BFT block would finalize: the block `confirmation_depth`
/// below the tip, when there is a tip, the height exists, and it is above the
/// latest final block.
pub open spec fn spec_proposal_candidate_height(
    tip: Option<BlockHeight>,
    latest_final_block: Option<(BlockHeight, [u8; 32])>,
    confirmation_depth: u64,
) -> Option<BlockHeight> {
    match tip {
        None => None,
        Some(t) => match spec_finality_candidate_height_at_depth(t.0, confirmation_depth) {
            None => None,
            Some(c) => match latest_final_block {
                Some((final_height, _)) => if c > final_height.0 {
                    Some(BlockHeight(c))
                } else {
                    None
                },
                None => Some(BlockHeight(c)),
            },
        },
    }
}

/// The PoW height a new BFT block would finalize, if it would improve finality.
pub fn proposal_candidate_height(
    tip: Option<BlockHeight>,
    latest_final_block: Option<(BlockHeight, [u8; 32])>,
    confirmation_depth: u64,
) -> (r: Option<BlockHeight>)
    ensures
        r == spec_proposal_candidate_height(tip, latest_final_block, confirmation_depth),
{
    let tip_height = match tip {
        None => {
            return None;
        },
        Some(t) => t,
    };
    let candidate = match finality_candidate_height_at_depth(tip_height, confirmation_depth) {
        None => {
            return None;
        },
        Some(c) => c,
    };
    match latest_final_block {
        Some((final_height, _)) => {
            if candidate.0 > final_height.0 {
                Some(candidate)
            } else {
                None
            }
        },
        None => Some(candidate),
    }
}

/// Build the BFT block to propose on top of the current BFT tip, from the
/// headers walking back from the PoW tip to the candidate; `None` when
/// [BftBlock::try_from] refuses them.
pub fn propose_bft_block(
    state: &TflState,
    params: &ZcashCrosslinkParameters,
    candidate_height: BlockHeight,
    headers: Vec<BcBlockHeader>,
) -> (r: Option<BftBlock>)
    requires
        state.bft_blocks@.len() < u32::MAX,
    ensures
        match spec_try_from(
            params.bc_confirmation_depth_sigma,
            (state.bft_blocks@.len() + 1) as u32,
            state.fat_pointer_to_tip@,
            candidate_height.0,
            header_views(headers@),
        ) {
            Ok(b) => r matches Some(block) && block@ == b,
            Err(_) => r is None,
        },
{
    let height = (state.bft_blocks.len() + 1) as u32;
    match BftBlock::try_from(
        params,
        height,
        state.fat_pointer_to_tip.duplicate(),
        candidate_height.0,
        headers,
    ) {
        Ok(block) => Some(block),
        Err(_) => None,
    }
}

/// Finality of a PoW block.
#[derive(Clone, Copy, Debug, PartialEq, Eq, Structural)]
pub enum TflBlockFinality {
    /// The block is on the best chain at or below the final block.
    Finalized,
    /// The block is above the final block.
    NotYetFinalized,
    /// Another block is final at the block's height.
    CantBeFinalized,
}

/// What answering a block-finality query needs next.
#[derive(Clone, Copy, Debug, PartialEq, Eq, Structural)]
pub enum FinalityQueryStep {
    /// No block is final yet.
    NoFinalBlock,
    /// The answer.
    Done(TflBlockFinality),
    /// The best-chain hash at the queried height is needed; answer with
    /// [block_finality_from_hash_at_height].
    NeedHashAtHeight,
}

/// Where the latest final block comes from.
#[derive(Clone, Copy, Debug, PartialEq, Eq)]
pub enum FinalBlockLookup {
    /// The final block recorded by the service.
    Recorded((BlockHeight, [u8; 32])),
    /// The block at the reorg limit: the last hash of the best chain's block
    /// locator, whose height is still to be looked up.
    LocatorTail([u8; 32]),
    /// No final block is known.
    Unknown,
}

/// The latest final block: the one the service recorded, else the last hash
/// of the best chain's block locator (the block at the reorg limit).
pub fn final_block_lookup(
    latest_final_block: Option<(BlockHeight, [u8; 32])>,
    block_locator: &[[u8; 32]],
) -> (r: FinalBlockLookup)
    ensures
        r == match latest_final_block {
            Some(f) => FinalBlockLookup::Recorded(f),
            None => if block_locator@.len() == 0 {
                FinalBlockLookup::Unknown
            } else {
                FinalBlockLookup::LocatorTail(block_locator@.last())
            },
        },
{
    match latest_final_block {
        Some(f) => FinalBlockLookup::Recorded(f),
        None => {
            if block_locator.len() == 0 {
                FinalBlockLookup::Unknown
            } else {
                FinalBlockLookup::LocatorTail(block_locator[block_locator.len() - 1])
            }
        },
    }
}

/// Finality of the block `hash` at `height`, given the final block: above it
/// is not yet final, at its height it is final exactly when it is the final
/// block, and below it the best-chain hash must be compared.
pub fn block_finality_step(
    height: BlockHeight,
    hash: [u8; 32],
    final_block: Option<(BlockHeight, [u8; 32])>,
) -> (r: FinalityQueryStep)
    ensures
        r == match final_block {
            None => FinalityQueryStep::NoFinalBlock,
            Some((final_height, final_hash)) => if height.0 > final_height.0 {
                FinalityQueryStep::Done(TflBlockFinality::NotYetFinalized)
            } else if height == final_height {
                FinalityQueryStep::Done(
                    if hash@ == final_hash@ {
                        TflBlockFinality::Finalized
                    } else {
                        TflBlockFinality::CantBeFinalized
                    },
                )
            } else {
                FinalityQueryStep::NeedHashAtHeight
            },
        },
{
    match final_block {
        None => FinalityQueryStep::NoFinalBlock,
        Some((final_height, final_hash)) => {
            if height.0 > final_height.0 {
                FinalityQueryStep::Done(TflBlockFinality::NotYetFinalized)
            } else if height.0 == final_height.0 {
                FinalityQueryStep::Done(block_finality_from_hash_at_height(&hash, &final_hash))
            } else {
                FinalityQueryStep::NeedHashAtHeight
            }
        },
    }
}

/// Finality of a block at or below the final height, given the best-chain
/// hash at its height.
pub fn block_finality_from_hash_at_height(hash: &[u8; 32], best_chain_hash: &[u8; 32]) -> (r:
    TflBlockFinality)
    ensures
        r == if hash@ == best_chain_hash@ {
            TflBlockFinality::Finalized
        } else {
            TflBlockFinality::CantBeFinalized
        },
{
    if crate::fat_pointer::bytes_equal(hash, best_chain_hash) {
        TflBlockFinality::Finalized
    } else {
        TflBlockFinality::CantBeFinalized
    }
}

/// Finality of a transaction mined at `tx_height`, given the final height.
pub fn tx_finality(tx_height: BlockHeight, final_height: BlockHeight) -> (r: TflBlockFinality)
    ensures
        r == if tx_height.0 <= final_height.0 {
            TflBlockFinality::Finalized
        } else {
            TflBlockFinality::NotYetFinalized
        },
{
    if tx_height.0 <= final_height.0 {
        TflBlockFinality::Finalized
    } else {
        TflBlockFinality::NotYetFinalized
    }
}

/// Set the final block by hash, once Crosslink is active, given the height of
/// the hash (looked up only when active). Returns that height.
pub fn set_finality_by_hash(
    state: &mut TflState,
    hash: [u8; 32],
    height_of_hash: Option<BlockHeight>,
) -> (r: Option<BlockHeight>)
    ensures
        r == if old(state).tfl_is_activated {
            height_of_hash
        } else {
            None
        },
        final(state).latest_final_block == match r {
            Some(h) => Some((h, hash)),
            None => old(state).latest_final_block,
        },
        final(state).tfl_is_activated == old(state).tfl_is_activated,
        final(state).current_bc_final == old(state).current_bc_final,
        final(state).bft_blocks@ == old(state).bft_blocks@,
{
    if state.tfl_is_activated {
        if let Some(height) = height_of_hash {
            state.latest_final_block = Some((height, hash));
        }
        height_of_hash
    } else {
        None
    }
}

/// One main-loop tick's activation check: Crosslink activates once the PoW
/// tip reaches the activation height. Returns whether the rest of the tick
/// runs: it is skipped while inactive with a tip below that height.
pub fn main_loop_activation(state: &mut TflState, new_bc_tip: Option<(BlockHeight, [u8; 32])>) -> (r:
    bool)
    ensures
        r == (old(state).tfl_is_activated || match new_bc_tip {
            Some((h, _)) => h.0 >= 2000,
            None => true,
        }),
        final(state).tfl_is_activated == (old(state).tfl_is_activated || match new_bc_tip {
            Some((h, _)) => h.0 >= 2000,
            None => false,
        }),
        final(state).latest_final_block == old(state).latest_final_block,
        final(state).current_bc_final == old(state).current_bc_final,
        final(state).bft_blocks@ == old(state).bft_blocks@,
{
    if !state.tfl_is_activated {
        if let Some((height, _)) = new_bc_tip {
            if height.0 < tfl_activation_height().0 {
                return false;
            } else {
                state.tfl_is_activated = true;
            }
        }
    }
    true
}

/// How far BFT finality trails the PoW tip.
#[derive(Clone, Copy, Debug, PartialEq, Eq, Structural)]
pub enum FinalityGap {
    /// The PoW tip is this many blocks below the latest final block.
    TipBelowFinal(u32),
    /// The latest final block is this many blocks below the tip; `warn` when
    /// the gap exceeds 512 blocks.
    FinalBelowTip { blocks: u32, warn: bool },
}

/// The gap between the PoW tip and the latest final block, when both are known.
pub fn finality_gap(
    current_bc_tip: Option<(BlockHeight, [u8; 32])>,
    latest_final_block: Option<(BlockHeight, [u8; 32])>,
) -> (r: Option<FinalityGap>)
    ensures
        r == match (current_bc_tip, latest_final_block) {
            (Some((tip, _)), Some((fin, _))) => Some(
                if tip.0 < fin.0 {
                    FinalityGap::TipBelowFinal((fin.0 - tip.0) as u32)
                } else {
                    FinalityGap::FinalBelowTip {
                        blocks: (tip.0 - fin.0) as u32,
                        warn: tip.0 - fin.0 > 512,
                    }
                },
            ),
            _ => None,
        },
{
    match (current_bc_tip, latest_final_block) {
        (Some((tip, _)), Some((fin, _))) => {
            if tip.0 < fin.0 {
                Some(FinalityGap::TipBelowFinal(fin.0 - tip.0))
            } else {
                let behind = tip.0 - fin.0;
                Some(FinalityGap::FinalBelowTip { blocks: behind, warn: behind > 512 })
            }
        },
        _ => None,
    }
}

/// The roster command string to hand the BFT engine: this node's own, taken
/// once; otherwise none, recording the one the engine reports.
pub fn take_roster_cmd_string(state: &mut TflState, reported: Option<String>) -> (r: Option<String>)
    ensures
        r == old(state).our_set_bft_string,
        final(state).our_set_bft_string is None,
        final(state).active_bft_string == if old(state).our_set_bft_string is None
            && reported is Some {
            reported
        } else {
            old(state).active_bft_string
        },
        final(state).latest_final_block == old(state).latest_final_block,
{
    let mut ours: Option<String> = None;
    std::mem::swap(&mut ours, &mut state.our_set_bft_string);
    if ours.is_some() {
        ours
    } else {
        if let Some(s) = reported {
            state.active_bft_string = Some(s);
        }
        None
    }
}

/// The roster as (public key, stake) pairs.
pub fn roster_summary(state: &TflState) -> (r: Vec<([u8; 32], u64)>)
    ensures
        r@.len() == state.validators_at_current_height@.len(),
        forall|i: int|
            0 <= i < r@.len() ==> (#[trigger] r@[i]) == (
            state.validators_at_current_height@[i].public_key,
            state.validators_at_current_height@[i].voting_power,
        ),
{
    let roster = &state.validators_at_current_height;
    let mut out: Vec<([u8; 32], u64)> = Vec::new();
    let mut i: usize = 0;
    while i < roster.len()
        invariant
            0 <= i <= roster@.len(),
            out@.len() == i,
            forall|k: int|
                0 <= k < i ==> (#[trigger] out@[k]) == (roster@[k].public_key, roster@[k].voting_power),
        decreases roster@.len() - i,
    {
        out.push((roster[i].public_key, roster[i].voting_power));
        i = i + 1;
    }
    out
}


/// A walk along the best chain that collects block hashes with their heights,
/// chunk by chunk.
pub struct BlockSequence {
    /// The hash the walk starts from.
    pub start_hash: [u8; 32],
    /// Whether the start block itself is collected.
    pub include_start_hash: bool,
    /// The height of the first collected block.
    pub start_height: BlockHeight,
    /// The hash after which the next chunk of hashes is requested.
    pub next_known: [u8; 32],
    /// Whether no chunk was read yet.
    pub first_chunk: bool,
    /// The collected (height, hash) pairs, in chain order.
    pub hashes: Vec<(BlockHeight, [u8; 32])>,
}

/// Why a walk stopped early.
#[derive(Clone, Copy, Debug, PartialEq, Eq, Structural)]
pub enum BlockSequenceError {
    /// The first hash returned is not the start hash that was asked for.
    FirstHashMismatch,
}

/// Begin a walk from `start_hash` towards the final height, given the start
/// block's height and previous hash (when it is known) and the final height
/// (the tip's, when no final block is given). `None`, for an empty walk, when
/// either is unknown or the final height is below the first height.
pub fn block_sequence_begin(
    start_header: Option<(BlockHeight, [u8; 32])>,
    start_hash: [u8; 32],
    include_start_hash: bool,
    final_height: Option<BlockHeight>,
) -> (r: Option<BlockSequence>)
    requires
        start_header matches Some((h, _)) ==> h.0 < u32::MAX,
    ensures
        match (start_header, final_height) {
            (Some((h, previous_hash)), Some(f)) => {
                let first = if include_start_hash {
                    h.0 as int
                } else {
                    h.0 + 1
                };
                if f.0 < first {
                    r is None
                } else {
                    r matches Some(seq) && seq.start_height.0 == first && seq.hashes@.len() == 0
                        && seq.first_chunk && seq.start_hash == start_hash && seq.include_start_hash
                        == include_start_hash && seq.next_known == if include_start_hash {
                        previous_hash
                    } else {
                        start_hash
                    }
                }
            },
            _ => r is None,
        },
{
    let (h, previous_hash) = match start_header {
        None => {
            return None;
        },
        Some(x) => x,
    };
    let (start_height, init_hash) = if include_start_hash {
        (h, previous_hash)
    } else {
        (BlockHeight(h.0 + 1), start_hash)
    };
    let f = match final_height {
        None => {
            return None;
        },
        Some(f) => f,
    };
    if f.0 < start_height.0 {
        return None;
    }
    Some(
        BlockSequence {
            start_hash,
            include_start_hash,
            start_height,
            next_known: init_hash,
            first_chunk: true,
            hashes: Vec::new(),
        },
    )
}

impl BlockSequence {
    /// Add a chunk of hashes that follow `next_known` on the best chain.
    /// Returns whether the walk goes on: it ends at an empty chunk.
    pub fn push_chunk(&mut self, chunk: &[[u8; 32]]) -> (r: Result<bool, BlockSequenceError>)
        requires
            old(self).start_height.0 + old(self).hashes@.len() + chunk@.len() <= u32::MAX,
        ensures
            final(self).start_hash == old(self).start_hash,
            final(self).include_start_hash == old(self).include_start_hash,
            final(self).start_height == old(self).start_height,
            old(self).first_chunk && old(self).include_start_hash && chunk@.len() > 0
                && chunk@[0]@ != old(self).start_hash@ ==> r == Err::<bool, BlockSequenceError>(
                BlockSequenceError::FirstHashMismatch,
            ) && final(self).hashes@ == old(self).hashes@,
            r is Ok ==> {
                &&& r == Ok::<bool, BlockSequenceError>(chunk@.len() > 0)
                &&& final(self).hashes@ == old(self).hashes@ + Seq::new(
                    chunk@.len(),
                    |k: int|
                        (
                            BlockHeight((old(self).start_height.0 + old(self).hashes@.len() + k) as u32),
                            chunk@[k],
                        ),
                )
                &&& chunk@.len() > 0 ==> final(self).next_known == chunk@[chunk@.len() - 1]
                    && !final(self).first_chunk
            },
            r is Err ==> old(self).first_chunk && old(self).include_start_hash && chunk@.len() > 0
                && chunk@[0]@ != old(self).start_hash@,
    {
        if chunk.len() == 0 {
            return Ok(false);
        }
        if self.first_chunk && self.include_start_hash && !crate::fat_pointer::bytes_equal(
            &chunk[0],
            &self.start_hash,
        ) {
            return Err(BlockSequenceError::FirstHashMismatch);
        }
        let ghost old_hashes = self.hashes@;
        let mut k: usize = 0;
        while k < chunk.len()
            invariant
                0 <= k <= chunk@.len(),
                self.start_height == old(self).start_height,
                self.start_hash == old(self).start_hash,
                self.include_start_hash == old(self).include_start_hash,
                self.start_height.0 + old_hashes.len() + chunk@.len() <= u32::MAX,
                self.hashes@ == old_hashes + Seq::new(
                    k as nat,
                    |j: int| (BlockHeight((self.start_height.0 + old_hashes.len() + j) as u32), chunk@[j]),
                ),
            decreases chunk@.len() - k,
        {
            let height = BlockHeight(self.start_height.0 + self.hashes.len() as u32);
            let ghost before = self.hashes@;
            self.hashes.push((height, chunk[k]));
            proof {
                assert(self.hashes@ =~= old_hashes + Seq::new(
                    (k + 1) as nat,
                    |j: int| (BlockHeight((self.start_height.0 + old_hashes.len() + j) as u32), chunk@[j]),
                ));
            }
            k = k + 1;
        }
        self.next_known = chunk[chunk.len() - 1];
        self.first_chunk = false;
        Ok(true)
    }
}


/// The stake the finalized blocks can add at most: each block but the
/// boundary block adds the block reward and its commands' values.
pub open spec fn finalized_stake_increase(
    current_bc_final: Option<(BlockHeight, [u8; 32])>,
    blocks: Seq<FinalizedPowBlock>,
) -> int
    decreases blocks.len(),
{
    if blocks.len() == 0 {
        0
    } else {
        let b = blocks.last();
        finalized_stake_increase(current_bc_final, blocks.drop_last()) + if is_boundary(
            current_bc_final,
            b,
        ) {
            0
        } else {
            POS_TOTAL_REWARD + match b.staking_actions {
                Some(actions) => actions_value_sum(actions@),
                None => 0,
            }
        }
    }
}

proof fn lemma_finalized_increase_nonneg(
    current_bc_final: Option<(BlockHeight, [u8; 32])>,
    blocks: Seq<FinalizedPowBlock>,
)
    ensures
        finalized_stake_increase(current_bc_final, blocks) >= 0,
    decreases blocks.len(),
{
    if blocks.len() > 0 {
        lemma_finalized_increase_nonneg(current_bc_final, blocks.drop_last());
        if let Some(actions) = blocks.last().staking_actions {
            lemma_value_sum_nonneg(actions@);
        }
    }
}

proof fn lemma_value_sum_nonneg(actions: Seq<StakingAction>)
    ensures
        actions_value_sum(actions) >= 0,
    decreases actions.len(),
{
    if actions.len() > 0 {
        lemma_value_sum_nonneg(actions.drop_last());
    }
}

/// With room for the rewards and command values above the roster's total
/// stake, applying the finalized blocks fits in a `u64`.
pub proof fn lemma_finalized_fits_under_bound(
    roster: Seq<MalValidator>,
    current_bc_final: Option<(BlockHeight, [u8; 32])>,
    blocks: Seq<FinalizedPowBlock>,
)
    requires
        crate::fat_pointer::total_voting_power(roster) + finalized_stake_increase(
            current_bc_final,
            blocks,
        ) <= u64::MAX,
    ensures
        finalized_fits(roster, current_bc_final, blocks),
        crate::fat_pointer::total_voting_power(
            roster_after_finalized(roster, current_bc_final, blocks),
        ) <= crate::fat_pointer::total_voting_power(roster) + finalized_stake_increase(
            current_bc_final,
            blocks,
        ),
    decreases blocks.len(),
{
    if blocks.len() > 0 {
        let init = blocks.drop_last();
        let b = blocks.last();
        lemma_finalized_increase_nonneg(current_bc_final, init);
        if let Some(actions) = b.staking_actions {
            lemma_value_sum_nonneg(actions@);
        }
        lemma_finalized_fits_under_bound(roster, current_bc_final, init);
        let r = roster_after_finalized(roster, current_bc_final, init);
        if !is_boundary(current_bc_final, b) {
            lemma_apportioning_fits_under_bound(r, POS_TOTAL_REWARD);
            if let Some(actions) = b.staking_actions {
                lemma_actions_fit_under_bound(apportioned(r, POS_TOTAL_REWARD), actions@);
            }
        }
    }
}

proof fn lemma_prefix_power_le(roster: Seq<MalValidator>, i: int)
    requires
        0 <= i <= roster.len(),
    ensures
        crate::fat_pointer::total_voting_power(roster.subrange(0, i))
            <= crate::fat_pointer::total_voting_power(roster),
    decreases roster.len(),
{
    if i == roster.len() {
        assert(roster.subrange(0, i) == roster);
    } else {
        lemma_prefix_power_le(roster.drop_last(), i);
        assert(roster.drop_last().subrange(0, i) == roster.subrange(0, i));
    }
}

proof fn lemma_prefix_value_sum_le(actions: Seq<StakingAction>, j: int)
    requires
        0 <= j <= actions.len(),
    ensures
        actions_value_sum(actions.subrange(0, j)) <= actions_value_sum(actions),
    decreases actions.len(),
{
    if j == actions.len() {
        assert(actions.subrange(0, j) == actions);
    } else {
        lemma_prefix_value_sum_le(actions.drop_last(), j);
        assert(actions.drop_last().subrange(0, j) == actions.subrange(0, j));
    }
}

proof fn lemma_prefix_increase_le(
    current_bc_final: Option<(BlockHeight, [u8; 32])>,
    blocks: Seq<FinalizedPowBlock>,
    k: int,
)
    requires
        0 <= k <= blocks.len(),
    ensures
        finalized_stake_increase(current_bc_final, blocks.subrange(0, k))
            <= finalized_stake_increase(current_bc_final, blocks),
    decreases blocks.len(),
{
    if k == blocks.len() {
        assert(blocks.subrange(0, k) == blocks);
    } else {
        lemma_prefix_increase_le(current_bc_final, blocks.drop_last(), k);
        assert(blocks.drop_last().subrange(0, k) == blocks.subrange(0, k));
        if let Some(actions) = blocks.last().staking_actions {
            lemma_value_sum_nonneg(actions@);
        }
    }
}

/// Whether applying the finalized blocks surely fits: the roster's total
/// stake plus every reward and command value fits in a `u64`.
pub fn finalized_blocks_fit_check(state: &TflState, blocks: &[FinalizedPowBlock]) -> (r: bool)
    ensures
        r == (crate::fat_pointer::total_voting_power(state.validators_at_current_height@)
            + finalized_stake_increase(state.current_bc_final, blocks@) <= u64::MAX),
        r ==> finalized_fits(state.validators_at_current_height@, state.current_bc_final, blocks@),
{
    let roster = &state.validators_at_current_height;
    let mut sum: u128 = 0;
    let mut i: usize = 0;
    while i < roster.len()
        invariant
            0 <= i <= roster@.len(),
            roster@ == state.validators_at_current_height@,
            sum == crate::fat_pointer::total_voting_power(roster@.subrange(0, i as int)),
            sum <= u64::MAX,
        decreases roster@.len() - i,
    {
        proof {
            assert(roster@.subrange(0, i + 1).drop_last() == roster@.subrange(0, i as int));
        }
        sum = sum + roster[i].voting_power as u128;
        if sum > u64::MAX as u128 {
            proof {
                assert(roster@.subrange(0, i + 1).last() == roster@[i as int]);
                assert(sum == crate::fat_pointer::total_voting_power(roster@.subrange(0, i + 1)));
                lemma_prefix_power_le(roster@, i + 1);
                lemma_finalized_increase_nonneg(state.current_bc_final, blocks@);
            }
            return false;
        }
        i = i + 1;
    }
    proof {
        assert(roster@.subrange(0, roster@.len() as int) == roster@);
    }
    let mut k: usize = 0;
    while k < blocks.len()
        invariant
            0 <= k <= blocks@.len(),
            roster@ == state.validators_at_current_height@,
            sum == crate::fat_pointer::total_voting_power(roster@) + finalized_stake_increase(
                state.current_bc_final,
                blocks@.subrange(0, k as int),
            ),
            sum <= u64::MAX,
        decreases blocks@.len() - k,
    {
        let ghost prefix = blocks@.subrange(0, k + 1);
        proof {
            assert(prefix.drop_last() == blocks@.subrange(0, k as int));
            assert(prefix.last() == blocks@[k as int]);
        }
        let b = &blocks[k];
        let skip = match state.current_bc_final {
            Some((_, hash)) => crate::fat_pointer::bytes_equal(&hash, &b.hash),
            None => false,
        };
        if !skip {
            proof {
                assert(!is_boundary(state.current_bc_final, blocks@[k as int]));
                if let Some(actions) = blocks@[k as int].staking_actions {
                    lemma_value_sum_nonneg(actions@);
                }
                lemma_prefix_increase_le(state.current_bc_final, blocks@, k + 1);
            }
            sum = sum + POS_TOTAL_REWARD as u128;
            if sum > u64::MAX as u128 {
                return false;
            }
            match &b.staking_actions {
                Some(actions) => {
                    let mut j: usize = 0;
                    while j < actions.len()
                        invariant
                            0 <= j <= actions@.len(),
                            roster@ == state.validators_at_current_height@,
                            k < blocks@.len(),
                            blocks@[k as int].staking_actions == Some(*actions),
                            !is_boundary(state.current_bc_final, blocks@[k as int]),
                            sum == crate::fat_pointer::total_voting_power(roster@)
                                + finalized_stake_increase(
                                state.current_bc_final,
                                blocks@.subrange(0, k as int),
                            ) + POS_TOTAL_REWARD + actions_value_sum(actions@.subrange(0, j as int)),
                            sum <= u64::MAX,
                        decreases actions@.len() - j,
                    {
                        proof {
                            assert(actions@.subrange(0, j + 1).drop_last() == actions@.subrange(
                                0,
                                j as int,
                            ));
                        }
                        sum = sum + actions[j].val as u128;
                        if sum > u64::MAX as u128 {
                            proof {
                                let ghost prefix = blocks@.subrange(0, k + 1);
                                assert(prefix.drop_last() == blocks@.subrange(0, k as int));
                                assert(prefix.last() == blocks@[k as int]);
                                assert(actions@.subrange(0, j + 1).last() == actions@[j as int]);
                                lemma_prefix_value_sum_le(actions@, j + 1);
                                lemma_prefix_increase_le(state.current_bc_final, blocks@, k + 1);
                            }
                            return false;
                        }
                        j = j + 1;
                    }
                    proof {
                        assert(actions@.subrange(0, actions@.len() as int) == actions@);
                    }
                },
                None => {},
            }
        }
        k = k + 1;
    }
    proof {
        assert(blocks@.subrange(0, blocks@.len() as int) == blocks@);
        lemma_finalized_fits_under_bound(
            state.validators_at_current_height@,
            state.current_bc_final,
            blocks@,
        );
    }
    true
}


/// The decided BFT block at `at_height` with the fat pointer to it, when
/// that height has been decided.
pub fn get_historical_bft_block_at_height(state: &TflState, at_height: u64) -> (r: Option<
    (BftBlock, FatPointerToBftBlock2),
>)
    ensures
        match r {
            None => at_height == 0 || at_height - 1 >= state.bft_blocks@.len(),
            Some((block, fat_pointer)) => {
                &&& 1 <= at_height <= state.bft_blocks@.len()
                &&& block@ == state.bft_blocks@[at_height - 1]@
                &&& spec_fat_pointer_to_block_at_height(
                    state.bft_blocks@.map_values(|b: BftBlock| b@),
                    state.fat_pointer_to_tip@,
                    at_height,
                ) == Some(fat_pointer@)
            },
        },
{
    let len = state.bft_blocks.len();
    if at_height == 0 || at_height - 1 >= len as u64 {
        return None;
    }
    let block = state.bft_blocks[(at_height - 1) as usize].duplicate();
    match fat_pointer_to_block_at_height(
        state.bft_blocks.as_slice(),
        &state.fat_pointer_to_tip,
        at_height,
    ) {
        Some(fat_pointer) => Some((block, fat_pointer)),
        None => None,
    }
}

} // verus!
