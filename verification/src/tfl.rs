//! Decisions of the trailing finality layer service: finality candidates,
//! proposal checks, BFT history lookups and Tenderlink payload decoding.
use crate::chain::{
    block_bytes, block_writable, decode_block_spec, decode_dynamic_payload_spec,
    decode_header_spec, decode_headers_spec, decode_payload_spec, header_solution_ok,
    spec_validate_payload, BftBlock, BftBlockPayload, BftBlockView, HeaderView, PayloadView,
    SerializationError,
};
use crate::dynamic_sigma::{
    evidence_fits, evidence_fits_check, prototype_dynamic_sigma_parameters, spec_prototype_dynamic_sigma_parameters,
    DynamicSigmaParameters,
};
use crate::fat_pointer::{bytes_equal, FatPointerToBftBlock2, FatPointerView};
use vstd::prelude::*;

verus! {

/// A PoW block height.
#[derive(Clone, Copy, Debug, PartialEq, Eq, PartialOrd, Ord, Hash, Structural)]
pub struct BlockHeight(pub u32);

/// The greatest valid block height.
pub const BLOCK_HEIGHT_MAX: u32 = 2147483647;

/// Placeholder activation height for Crosslink functionality.
pub fn tfl_activation_height() -> (r: BlockHeight)
    ensures
        r.0 == 2000,
{
    BlockHeight(2000)
}

/// The height `height - diff`, if it is a valid height.
pub open spec fn spec_height_sub(height: u32, diff: int) -> Option<u32> {
    let res = height - diff;
    if 0 <= res <= BLOCK_HEIGHT_MAX {
        Some(res as u32)
    } else {
        None
    }
}

impl BlockHeight {
    /// Subtract a signed height difference, going to zero when the result is
    /// not a valid height.
    pub fn sat_sub(&self, d: i32) -> (r: BlockHeight)
        ensures
            r.0 == match spec_height_sub(self.0, d as int) {
                Some(h) => h,
                None => 0,
            },
    {
        let res: i64 = self.0 as i64 - d as i64;
        if 0 <= res && res <= BLOCK_HEIGHT_MAX as i64 {
            BlockHeight(res as u32)
        } else {
            BlockHeight(0)
        }
    }
}

/// The height of the finalization candidate at a confirmation depth below the
/// tip, if the depth is representable as a signed height difference and the
/// result is a valid height.
pub open spec fn spec_finality_candidate_height_at_depth(tip: u32, depth: u64) -> Option<u32> {
    if depth > i64::MAX {
        None
    } else {
        spec_height_sub(tip, depth as int)
    }
}

/// The finalization candidate `confirmation_depth` blocks below the tip.
pub fn finality_candidate_height_at_depth(tip_height: BlockHeight, confirmation_depth: u64) -> (r:
    Option<BlockHeight>)
    ensures
        match spec_finality_candidate_height_at_depth(tip_height.0, confirmation_depth) {
            Some(h) => r == Some(BlockHeight(h)),
            None => r is None,
        },
{
    if confirmation_depth > i64::MAX as u64 {
        return None;
    }
    let depth = confirmation_depth as i64;
    let res: i64 = tip_height.0 as i64 - depth;
    if 0 <= res && res <= BLOCK_HEIGHT_MAX as i64 {
        Some(BlockHeight(res as u32))
    } else {
        None
    }
}

/// Whether the declared finalization candidate height is the observed one.
pub fn proposal_candidate_height_matches_declared_height(
    declared_candidate_height: u32,
    observed_candidate_height: BlockHeight,
) -> (r: bool)
    ensures
        r == (declared_candidate_height == observed_candidate_height.0),
{
    declared_candidate_height == observed_candidate_height.0
}

/// Outcome of validating a BFT proposal.
#[derive(Clone, Copy, Debug, PartialEq, Eq, Structural)]
pub enum TmStatus {
    /// The proposal is acceptable.
    Pass,
    /// The proposal is invalid.
    Fail,
    /// The proposal refers to a candidate other than the current one.
    Stale,
    /// The proposal cannot be judged yet.
    Indeterminate,
}

/// Whether a proposal's finalization candidate (height and hash) is the
/// current candidate of the local PoW stream.
pub fn proposal_status_against_current_stream(
    proposal_candidate: (BlockHeight, [u8; 32]),
    current_candidate: (BlockHeight, [u8; 32]),
) -> (r: TmStatus)
    ensures
        r == if proposal_candidate.0 == current_candidate.0 && proposal_candidate.1@
            == current_candidate.1@ {
            TmStatus::Pass
        } else {
            TmStatus::Stale
        },
{
    if proposal_candidate.0 == current_candidate.0 && bytes_equal(
        &proposal_candidate.1,
        &current_candidate.1,
    ) {
        TmStatus::Pass
    } else {
        TmStatus::Stale
    }
}

/// The fat pointer to the BFT block at a height, given the chain of BFT
/// blocks (heights 1..=len) and the fat pointer to the tip.
pub open spec fn spec_fat_pointer_to_block_at_height(
    bft_blocks: Seq<BftBlockView>,
    fat_pointer_to_tip: FatPointerView,
    at_height: u64,
) -> Option<FatPointerView> {
    if at_height == 0 || at_height - 1 >= bft_blocks.len() {
        None
    } else if at_height == bft_blocks.len() {
        Some(fat_pointer_to_tip)
    } else {
        Some(bft_blocks[at_height as int].previous_block_fat_ptr)
    }
}

/// The fat pointer to the BFT block at `at_height`: the tip's fat pointer for
/// the last block, else the previous-block pointer of the block above it.
pub fn fat_pointer_to_block_at_height(
    bft_blocks: &[BftBlock],
    fat_pointer_to_tip: &FatPointerToBftBlock2,
    at_height: u64,
) -> (r: Option<FatPointerToBftBlock2>)
    ensures
        match spec_fat_pointer_to_block_at_height(
            bft_blocks@.map_values(|b: BftBlock| b@),
            fat_pointer_to_tip@,
            at_height,
        ) {
            Some(f) => r matches Some(fp) && fp@ == f,
            None => r is None,
        },
{
    let len = bft_blocks.len();
    if at_height == 0 || at_height - 1 >= len as u64 {
        return None;
    }
    if at_height == len as u64 {
        Some(fat_pointer_to_tip.duplicate())
    } else {
        Some(bft_blocks[at_height as usize].previous_block_fat_ptr.duplicate())
    }
}

/// The hash masked to its first `chars` hexadecimal characters (nibbles):
/// whole bytes, plus the low nibble of the next byte for an odd count.
pub open spec fn hash_prefix_key(hash: Seq<u8>, chars: nat) -> Seq<u8> {
    let bytes_n = chars / 2;
    Seq::new(
        32,
        |i: int|
            if i < bytes_n {
                hash[i]
            } else if i == bytes_n && chars % 2 == 1 {
                hash[i] & 0xf
            } else {
                0u8
            },
    )
}

/// Whether the first `chars` characters tell the hashes apart.
pub open spec fn prefixes_unique(hashes: Seq<[u8; 32]>, chars: nat) -> bool {
    forall|i: int, j: int|
        0 <= i < j < hashes.len() ==> hash_prefix_key(hashes[i]@, chars) != hash_prefix_key(
            hashes[j]@,
            chars,
        )
}

/// Whether no hash occurs twice.
pub open spec fn hashes_distinct(hashes: Seq<[u8; 32]>) -> bool {
    forall|i: int, j: int| 0 <= i < j < hashes.len() ==> hashes[i]@ != hashes[j]@
}

fn prefix_key(hash: &[u8; 32], chars: usize) -> (r: [u8; 32])
    requires
        chars <= 64,
    ensures
        r@ == hash_prefix_key(hash@, chars as nat),
{
    let bytes_n = chars / 2;
    let mut out = [0u8; 32];
    let mut i: usize = 0;
    while i < 32
        invariant
            0 <= i <= 32,
            bytes_n == chars / 2,
            chars <= 64,
            out@.len() == 32,
            forall|k: int| 0 <= k < i ==> out@[k] == hash_prefix_key(hash@, chars as nat)[k],
            forall|k: int| i <= k < 32 ==> out@[k] == 0,
        decreases 32 - i,
    {
        if i < bytes_n {
            out[i] = hash[i];
        } else if i == bytes_n && chars % 2 == 1 {
            out[i] = hash[i] & 0xf;
        }
        i = i + 1;
    }
    proof {
        assert(out@ == hash_prefix_key(hash@, chars as nat));
    }
    out
}

fn is_unique(chars: usize, hashes: &[[u8; 32]]) -> (r: bool)
    requires
        chars <= 64,
    ensures
        r == prefixes_unique(hashes@, chars as nat),
{
    let mut i: usize = 0;
    while i < hashes.len()
        invariant
            chars <= 64,
            0 <= i <= hashes@.len(),
            forall|a: int, b: int|
                0 <= a < b < hashes@.len() && a < i ==> hash_prefix_key(hashes@[a]@, chars as nat)
                    != hash_prefix_key(hashes@[b]@, chars as nat),
        decreases hashes@.len() - i,
    {
        let ki = prefix_key(&hashes[i], chars);
        let mut j: usize = i + 1;
        while j < hashes.len()
            invariant
                chars <= 64,
                0 <= i < hashes@.len(),
                i + 1 <= j <= hashes@.len(),
                ki@ == hash_prefix_key(hashes@[i as int]@, chars as nat),
                forall|a: int, b: int|
                    0 <= a < b < hashes@.len() && a < i ==> hash_prefix_key(
                        hashes@[a]@,
                        chars as nat,
                    ) != hash_prefix_key(hashes@[b]@, chars as nat),
                forall|b: int|
                    i < b < j ==> hash_prefix_key(hashes@[i as int]@, chars as nat)
                        != hash_prefix_key(hashes@[b]@, chars as nat),
            decreases hashes@.len() - j,
        {
            let kj = prefix_key(&hashes[j], chars);
            if bytes_equal(&ki, &kj) {
                return false;
            }
            j = j + 1;
        }
        i = i + 1;
    }
    true
}

/// With all 64 characters every hash keeps all its bytes.
proof fn lemma_full_prefix_is_hash(hash: [u8; 32])
    ensures
        hash_prefix_key(hash@, 64) == hash@,
{
    assert(hash_prefix_key(hash@, 64) == hash@);
}

/// How many little-endian hexadecimal characters are needed to tell apart the
/// given (distinct) hashes: the least count, from one, whose prefixes are unique.
pub fn block_hash_unique_chars_n(hashes: &[[u8; 32]]) -> (r: usize)
    requires
        hashes_distinct(hashes@),
    ensures
        1 <= r <= 64,
        prefixes_unique(hashes@, r as nat),
        forall|m: nat| 1 <= m < r ==> !prefixes_unique(hashes@, m),
{
    proof {
        assert forall|i: int, j: int| 0 <= i < j < hashes@.len() implies hash_prefix_key(
            hashes@[i]@,
            64,
        ) != hash_prefix_key(hashes@[j]@, 64) by {
            lemma_full_prefix_is_hash(hashes@[i]);
            lemma_full_prefix_is_hash(hashes@[j]);
        }
    }
    let mut unique_chars_n: usize = 1;
    while !is_unique(unique_chars_n, hashes)
        invariant
            1 <= unique_chars_n <= 64,
            prefixes_unique(hashes@, 64),
            forall|m: nat| 1 <= m < unique_chars_n ==> !prefixes_unique(hashes@, m),
        decreases 64 - unique_chars_n,
    {
        unique_chars_n = unique_chars_n + 1;
    }
    unique_chars_n
}

/// Configuration for the Crosslink service.
#[derive(Clone, Debug, PartialEq, Eq)]
pub struct Config {
    /// Local address, e.g. "/ip4/0.0.0.0/udp/24834/quic-v1".
    pub listen_address: Option<String>,
    /// Public address for this node.
    pub public_address: Option<String>,
    /// Temporary seed for the private/public key pair.
    pub insecure_user_name: Option<String>,
    /// Public addresses of peers, in the same format as `public_address`.
    pub malachite_peers: Vec<String>,
    /// Do not manipulate the configuration.
    pub do_not_manipulate_config: bool,
    /// Enables prototype-only dynamic-sigma Tenderlink payload decoding.
    pub dynamic_sigma_prototype: bool,
}

impl Default for Config {
    fn default() -> (r: Config)
        ensures
            r.listen_address is None,
            r.public_address is None,
            r.insecure_user_name is None,
            r.malachite_peers@.len() == 0,
            !r.do_not_manipulate_config,
            !r.dynamic_sigma_prototype,
    {
        Config {
            listen_address: None,
            public_address: None,
            insecure_user_name: None,
            malachite_peers: Vec::new(),
            do_not_manipulate_config: false,
            dynamic_sigma_prototype: false,
        }
    }
}

/// The dynamic-sigma parameters in force under a configuration: the
/// prototype parameters when the prototype is enabled.
pub open spec fn spec_dynamic_sigma_params_from_config(dynamic_sigma_prototype: bool) -> Option<
    DynamicSigmaParameters,
> {
    if dynamic_sigma_prototype {
        Some(spec_prototype_dynamic_sigma_parameters())
    } else {
        None
    }
}

/// The dynamic-sigma parameters in force under `config`.
pub fn dynamic_sigma_params_from_config(config: &Config) -> (r: Option<DynamicSigmaParameters>)
    ensures
        r == spec_dynamic_sigma_params_from_config(config.dynamic_sigma_prototype),
{
    if config.dynamic_sigma_prototype {
        Some(prototype_dynamic_sigma_parameters())
    } else {
        None
    }
}

/// Why a Tenderlink payload is rejected.
#[derive(Clone, Copy, Debug, PartialEq, Eq, Structural)]
pub enum TenderlinkPayloadDecodeError {
    /// A dynamic-sigma payload arrived while the prototype is disabled.
    DynamicSigmaUnsupported,
    /// A dynamic-sigma payload failed validation.
    DynamicSigmaInvalid,
    /// The bytes are not a payload.
    Invalid,
}

/// Whether bytes begin with the dynamic-sigma magic prefix.
pub open spec fn tagged_dynamic(s: Seq<u8>) -> bool {
    crate::chain::starts_with_magic(s)
}

/// What decoding a Tenderlink payload returns under a configuration.
pub open spec fn spec_decode_tenderlink_payload(dynamic_sigma_prototype: bool, s: Seq<u8>) -> Result<
    BftBlockView,
    TenderlinkPayloadDecodeError,
> {
    if tagged_dynamic(s) && !dynamic_sigma_prototype {
        Err(TenderlinkPayloadDecodeError::DynamicSigmaUnsupported)
    } else {
        match decode_payload_spec(s) {
            Err(_) => Err(TenderlinkPayloadDecodeError::Invalid),
            Ok(PayloadView::FixedSigma(b)) => Ok(b),
            Ok(PayloadView::DynamicSigma(e, b)) => match spec_dynamic_sigma_params_from_config(
                dynamic_sigma_prototype,
            ) {
                None => Err(TenderlinkPayloadDecodeError::DynamicSigmaUnsupported),
                Some(params) => match spec_validate_payload(params, e, b) {
                    Err(_) => Err(TenderlinkPayloadDecodeError::DynamicSigmaInvalid),
                    Ok(_) => Ok(b),
                },
            },
        }
    }
}

/// A legacy fixed-sigma payload decodes to its block under every
/// configuration: bytes that do not start with the dynamic-sigma magic and
/// read as a block give that block whether the prototype is on or off, and in
/// particular the layout of a well-formed untagged block gives the block back.
pub proof fn lemma_legacy_payload_decodes_under_every_config(
    dynamic_sigma_prototype: bool,
    s: Seq<u8>,
    b: BftBlockView,
)
    ensures
        (!crate::chain::starts_with_magic(s) && crate::chain::decode_block_spec(s) is Ok
            && crate::chain::decode_block_spec(s)->Ok_0.0 == b) ==> spec_decode_tenderlink_payload(
            dynamic_sigma_prototype,
            s,
        ) == Ok::<BftBlockView, TenderlinkPayloadDecodeError>(b),
        !crate::chain::starts_with_magic(s) ==> spec_decode_tenderlink_payload(true, s)
            == spec_decode_tenderlink_payload(false, s),
        crate::chain::block_wf(b) && !crate::chain::starts_with_magic(crate::chain::block_bytes(b))
            ==> spec_decode_tenderlink_payload(
            dynamic_sigma_prototype,
            crate::chain::block_bytes(b),
        ) == Ok::<BftBlockView, TenderlinkPayloadDecodeError>(b),
{
    if crate::chain::block_wf(b) && !crate::chain::starts_with_magic(crate::chain::block_bytes(b)) {
        crate::chain::lemma_fixed_payload_roundtrip(b);
    }
}

/// The controller arithmetic of validating the evidence in these bytes fits
/// the machine's integers (it always does for fixed-sigma payloads).
pub open spec fn payload_evidence_fits(dynamic_sigma_prototype: bool, s: Seq<u8>) -> bool {
    match decode_payload_spec(s) {
        Ok(PayloadView::DynamicSigma(e, _)) => dynamic_sigma_prototype ==> evidence_fits(
            spec_prototype_dynamic_sigma_parameters(),
            e,
        ),
        _ => true,
    }
}

/// Whether decoding these bytes under `config` keeps the controller
/// arithmetic within the machine's integers: the check to make before
/// [decode_tenderlink_payload] on untrusted bytes.
pub fn payload_evidence_fits_check(config: &Config, bytes: &[u8]) -> (r: bool)
    ensures
        r == payload_evidence_fits(config.dynamic_sigma_prototype, bytes@),
{
    match BftBlockPayload::zcash_deserialize_from_slice(bytes) {
        Ok(BftBlockPayload::DynamicSigma(payload)) => {
            if config.dynamic_sigma_prototype {
                evidence_fits_check(prototype_dynamic_sigma_parameters(), payload.evidence)
            } else {
                true
            }
        },
        _ => true,
    }
}

/// Every decoded header carries a valid solution size.
proof fn lemma_decoded_headers_writable(s: Seq<u8>, n: nat)
    requires
        decode_headers_spec(s, n) is Ok,
    ensures
        forall|i: int|
            0 <= i < decode_headers_spec(s, n)->Ok_0.0.len() ==> header_solution_ok(
                #[trigger] decode_headers_spec(s, n)->Ok_0.0[i],
            ),
        decode_headers_spec(s, n)->Ok_0.0.len() == n,
    decreases n,
{
    if n > 0 {
        lemma_decoded_headers_writable(s, (n - 1) as nat);
        let (hs, k) = decode_headers_spec(s, (n - 1) as nat)->Ok_0;
        let (h, m) = decode_header_spec(s.subrange(k, s.len() as int))->Ok_0;
        let all = hs.push(h);
        assert forall|i: int| 0 <= i < all.len() implies header_solution_ok(#[trigger] all[i]) by {
            if i < hs.len() {
                assert(all[i] == hs[i]);
            }
        }
    }
}

/// A decoded block can be written back.
pub proof fn lemma_decoded_block_writable(s: Seq<u8>)
    requires
        decode_block_spec(s) is Ok,
    ensures
        block_writable(decode_block_spec(s)->Ok_0.0),
{
    let (_, fp_len) = crate::fat_pointer::decode_fat_pointer_spec(s.subrange(8, s.len() as int))->0;
    let at = 8 + fp_len;
    let count = vstd::bytes::spec_u32_from_le_bytes(s.subrange(at + 4, at + 8));
    lemma_decoded_headers_writable(s.subrange(at + 8, s.len() as int), count as nat);
}

/// Decode a Tenderlink payload: dynamic-sigma payloads are accepted only when
/// the prototype is enabled and their evidence permits exactly their block.
pub fn decode_tenderlink_payload(config: &Config, bytes: &[u8]) -> (r: Result<
    BftBlock,
    TenderlinkPayloadDecodeError,
>)
    requires
        payload_evidence_fits(config.dynamic_sigma_prototype, bytes@),
    ensures
        match spec_decode_tenderlink_payload(config.dynamic_sigma_prototype, bytes@) {
            Ok(b) => r matches Ok(block) && block@ == b && block_writable(block@),
            Err(e) => r == Err::<BftBlock, TenderlinkPayloadDecodeError>(e),
        },
{
    let magic = crate::chain::dynamic_sigma_magic();
    if bytes.len() >= 8 && bytes_equal(crate::chain::slice_subrange(bytes, 0, 8), &magic)
        && !config.dynamic_sigma_prototype {
        return Err(TenderlinkPayloadDecodeError::DynamicSigmaUnsupported);
    }
    match BftBlockPayload::zcash_deserialize_from_slice(bytes) {
        Err(_) => Err(TenderlinkPayloadDecodeError::Invalid),
        Ok(BftBlockPayload::FixedSigma(block)) => {
            proof {
                assert(!crate::chain::starts_with_magic(bytes@));
                lemma_decoded_block_writable(bytes@);
            }
            Ok(block)
        },
        Ok(BftBlockPayload::DynamicSigma(payload)) => {
            let params = match dynamic_sigma_params_from_config(config) {
                None => {
                    return Err(TenderlinkPayloadDecodeError::DynamicSigmaUnsupported);
                },
                Some(p) => p,
            };
            proof {
                let s = bytes@;
                let body = s.subrange(131, s.len() as int);
                assert(decode_dynamic_payload_spec(s) is Ok);
                lemma_decoded_block_writable(body);
            }
            match payload.validate(params) {
                Err(_) => Err(TenderlinkPayloadDecodeError::DynamicSigmaInvalid),
                Ok(()) => Ok(payload.block),
            }
        },
    }
}

/// Decode a Tenderlink payload under the default configuration, in which
/// dynamic-sigma payloads are unsupported.
pub fn decode_fixed_sigma_tenderlink_payload(bytes: &[u8]) -> (r: Result<
    BftBlock,
    TenderlinkPayloadDecodeError,
>)
    requires
        payload_evidence_fits(false, bytes@),
    ensures
        match spec_decode_tenderlink_payload(false, bytes@) {
            Ok(b) => r matches Ok(block) && block@ == b && block_writable(block@),
            Err(e) => r == Err::<BftBlock, TenderlinkPayloadDecodeError>(e),
        },
{
    let config = Config::default();
    decode_tenderlink_payload(&config, bytes)
}

/// With the prototype disabled, no tagged payload is ever accepted.
pub proof fn lemma_default_config_rejects_tagged_payloads(s: Seq<u8>)
    requires
        tagged_dynamic(s),
    ensures
        spec_decode_tenderlink_payload(false, s) == Err::<BftBlockView, TenderlinkPayloadDecodeError>(
            TenderlinkPayloadDecodeError::DynamicSigmaUnsupported,
        ),
{
}

} // verus!
