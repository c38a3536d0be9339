//! Core Zcash Crosslink data structures: PoW headers as carried by BFT blocks,
//! BFT blocks, dynamic-sigma payloads, and their byte encodings.
use crate::bytes::{
    append_bytes, array_from_slice, lemma_u128_le_roundtrip, read_u128_le, spec_u128_from_le,
    spec_u128_le, write_u128_le,
};
use crate::dynamic_sigma::{
    evidence_fits, spec_validate_evidence, validate_dynamic_sigma_evidence, DynamicSigmaParameters,
    DynamicSigmaProposalEvidence, DynamicSigmaEvidenceError, DynamicSigmaRawTelemetry,
    RollbackRiskCurve, TelemetryEstimateMargins,
};
use crate::fat_pointer::{
    bytes_equal, decode_fat_pointer_spec, fat_pointer_bytes, fat_pointer_wf,
    lemma_fat_pointer_roundtrip, Blake3Hash, FatPointerToBftBlock2, FatPointerView,
};
use vstd::bytes::{
    lemma_auto_spec_u16_to_from_le_bytes, lemma_auto_spec_u32_to_from_le_bytes,
    lemma_auto_spec_u64_to_from_le_bytes, spec_u16_from_le_bytes, spec_u16_to_le_bytes,
    spec_u32_from_le_bytes, spec_u32_to_le_bytes, spec_u64_from_le_bytes, spec_u64_to_le_bytes,
    u16_from_le_bytes, u16_to_le_bytes, u32_from_le_bytes, u32_to_le_bytes, u64_from_le_bytes,
    u64_to_le_bytes,
};
use sha2::Digest;
use vstd::prelude::*;

verus! {

/// Why bytes could not be decoded.
#[derive(Clone, Copy, Debug, PartialEq, Eq, Structural)]
pub enum SerializationError {
    /// The bytes ended before the value did.
    UnexpectedEnd,
    /// A BFT block declared more than 2048 headers.
    HeaderCountTooLarge,
    /// An Equihash solution length other than 1344 or 36 bytes.
    InvalidSolutionSize,
    /// A dynamic-sigma payload did not start with its magic prefix.
    InvalidDynamicSigmaMagic,
}

/// A PoW block header as carried inside BFT blocks.
#[derive(Clone, Debug, PartialEq, Eq, PartialOrd, Ord)]
pub struct BcBlockHeader {
    /// The block version.
    pub version: u32,
    /// Hash of the previous PoW block.
    pub previous_block_hash: [u8; 32],
    /// Merkle root of the block's transactions.
    pub merkle_root: [u8; 32],
    /// Chain-history or block commitment bytes.
    pub commitment_bytes: [u8; 32],
    /// Block time, in seconds since the Unix epoch.
    pub time: u32,
    /// Compact difficulty threshold.
    pub difficulty_threshold: u32,
    /// Equihash nonce.
    pub nonce: [u8; 32],
    /// Equihash solution: 1344 bytes, or 36 bytes on Regtest.
    pub solution: Vec<u8>,
    /// Fat pointer to the BFT block this PoW block builds on.
    pub fat_pointer_to_bft_block: FatPointerToBftBlock2,
}

/// Mathematical view of a [BcBlockHeader].
pub struct HeaderView {
    /// The block version.
    pub version: u32,
    /// Previous block hash bytes.
    pub previous_block_hash: Seq<u8>,
    /// Merkle root bytes.
    pub merkle_root: Seq<u8>,
    /// Commitment bytes.
    pub commitment_bytes: Seq<u8>,
    /// Block time.
    pub time: u32,
    /// Compact difficulty threshold.
    pub difficulty_threshold: u32,
    /// Nonce bytes.
    pub nonce: Seq<u8>,
    /// Solution bytes.
    pub solution: Seq<u8>,
    /// Fat pointer to a BFT block.
    pub fat_pointer_to_bft_block: FatPointerView,
}

impl View for BcBlockHeader {
    type V = HeaderView;

    open spec fn view(&self) -> HeaderView {
        HeaderView {
            version: self.version,
            previous_block_hash: self.previous_block_hash@,
            merkle_root: self.merkle_root@,
            commitment_bytes: self.commitment_bytes@,
            time: self.time,
            difficulty_threshold: self.difficulty_threshold,
            nonce: self.nonce@,
            solution: self.solution@,
            fat_pointer_to_bft_block: self.fat_pointer_to_bft_block@,
        }
    }
}

/// A header whose solution has one of the two Equihash sizes.
pub open spec fn header_solution_ok(h: HeaderView) -> bool {
    h.solution.len() == 1344 || h.solution.len() == 36
}

/// A header whose layout can be read back.
pub open spec fn header_wf(h: HeaderView) -> bool {
    &&& h.previous_block_hash.len() == 32
    &&& h.merkle_root.len() == 32
    &&& h.commitment_bytes.len() == 32
    &&& h.nonce.len() == 32
    &&& header_solution_ok(h)
    &&& fat_pointer_wf(h.fat_pointer_to_bft_block)
}

/// The length prefix of a solution: one byte below 253, else `0xfd` and a
/// little-endian `u16`.
pub open spec fn solution_length_prefix(n: nat) -> Seq<u8> {
    if n < 253 {
        seq![n as u8]
    } else {
        seq![0xfdu8] + spec_u16_to_le_bytes(n as u16)
    }
}

/// The byte layout of a header: version, previous hash, Merkle root,
/// commitment, time, difficulty, nonce, length-prefixed solution, fat pointer.
pub open spec fn header_bytes(h: HeaderView) -> Seq<u8> {
    spec_u32_to_le_bytes(h.version) + h.previous_block_hash + h.merkle_root + h.commitment_bytes
        + spec_u32_to_le_bytes(h.time) + spec_u32_to_le_bytes(h.difficulty_threshold) + h.nonce
        + solution_length_prefix(h.solution.len()) + h.solution + fat_pointer_bytes(
        h.fat_pointer_to_bft_block,
    )
}

/// The solution size and prefix length read at offset 140 of a header.
pub open spec fn decode_solution_prefix(s: Seq<u8>) -> Result<(int, int), SerializationError> {
    if s.len() < 141 {
        Err(SerializationError::UnexpectedEnd)
    } else if s[140] == 36 {
        Ok((36, 1))
    } else if s[140] == 0xfd {
        if s.len() < 143 {
            Err(SerializationError::UnexpectedEnd)
        } else if spec_u16_from_le_bytes(s.subrange(141, 143)) == 1344 {
            Ok((1344, 3))
        } else {
            Err(SerializationError::InvalidSolutionSize)
        }
    } else {
        Err(SerializationError::InvalidSolutionSize)
    }
}

/// Decoding a header from the front of `s`: the header and its length.
pub open spec fn decode_header_spec(s: Seq<u8>) -> Result<(HeaderView, int), SerializationError> {
    match decode_solution_prefix(s) {
        Err(e) => Err(e),
        Ok((sol_len, pre_len)) => {
            let sol_start = 140 + pre_len;
            let sol_end = sol_start + sol_len;
            if s.len() < sol_end {
                Err(SerializationError::UnexpectedEnd)
            } else {
                match decode_fat_pointer_spec(s.subrange(sol_end, s.len() as int)) {
                    None => Err(SerializationError::UnexpectedEnd),
                    Some((fp, fp_len)) => Ok(
                        (
                            HeaderView {
                                version: spec_u32_from_le_bytes(s.subrange(0, 4)),
                                previous_block_hash: s.subrange(4, 36),
                                merkle_root: s.subrange(36, 68),
                                commitment_bytes: s.subrange(68, 100),
                                time: spec_u32_from_le_bytes(s.subrange(100, 104)),
                                difficulty_threshold: spec_u32_from_le_bytes(s.subrange(104, 108)),
                                nonce: s.subrange(108, 140),
                                solution: s.subrange(sol_start, sol_end),
                                fat_pointer_to_bft_block: fp,
                            },
                            sol_end + fp_len,
                        ),
                    ),
                }
            }
        },
    }
}

/// Reading back the layout of a well-formed header gives the header,
/// whatever bytes follow it.
pub proof fn lemma_header_roundtrip(h: HeaderView, rest: Seq<u8>)
    requires
        header_wf(h),
    ensures
        decode_header_spec(header_bytes(h) + rest) == Ok::<(HeaderView, int), SerializationError>(
            (h, header_bytes(h).len() as int),
        ),
{
    lemma_auto_spec_u16_to_from_le_bytes();
    lemma_auto_spec_u32_to_from_le_bytes();
    lemma_fat_pointer_roundtrip(h.fat_pointer_to_bft_block, rest);
    let s = header_bytes(h) + rest;
    let sol = h.solution;
    let pre = solution_length_prefix(sol.len());
    let pre_len = pre.len() as int;
    let fixed = spec_u32_to_le_bytes(h.version) + h.previous_block_hash + h.merkle_root
        + h.commitment_bytes + spec_u32_to_le_bytes(h.time) + spec_u32_to_le_bytes(
        h.difficulty_threshold,
    ) + h.nonce;
    assert(fixed.len() == 140);
    let fp_bytes = fat_pointer_bytes(h.fat_pointer_to_bft_block);
    assert(s == fixed + pre + sol + (fp_bytes + rest));
    assert(s.subrange(0, 4) == spec_u32_to_le_bytes(h.version));
    assert(s.subrange(4, 36) == h.previous_block_hash);
    assert(s.subrange(36, 68) == h.merkle_root);
    assert(s.subrange(68, 100) == h.commitment_bytes);
    assert(s.subrange(100, 104) == spec_u32_to_le_bytes(h.time));
    assert(s.subrange(104, 108) == spec_u32_to_le_bytes(h.difficulty_threshold));
    assert(s.subrange(108, 140) == h.nonce);
    if sol.len() == 36 {
        assert(s[140] == 36);
    } else {
        assert(s[140] == 0xfd);
        assert(s.subrange(141, 143) == spec_u16_to_le_bytes(1344u16));
    }
    assert(s.subrange(140 + pre_len, 140 + pre_len + sol.len()) == sol);
    assert(s.subrange(140 + pre_len + sol.len(), s.len() as int) == fp_bytes + rest);
}

impl BcBlockHeader {
    /// A copy of this header.
    pub fn duplicate(&self) -> (r: BcBlockHeader)
        ensures
            r@ == self@,
    {
        let mut solution: Vec<u8> = Vec::new();
        append_bytes(&mut solution, self.solution.as_slice());
        BcBlockHeader {
            version: self.version,
            previous_block_hash: self.previous_block_hash,
            merkle_root: self.merkle_root,
            commitment_bytes: self.commitment_bytes,
            time: self.time,
            difficulty_threshold: self.difficulty_threshold,
            nonce: self.nonce,
            solution,
            fat_pointer_to_bft_block: self.fat_pointer_to_bft_block.duplicate(),
        }
    }

    /// Append the byte layout of this header to `out`; see [header_bytes].
    pub fn write_to(&self, out: &mut Vec<u8>)
        requires
            header_solution_ok(self@),
        ensures
            final(out)@ == old(out)@ + header_bytes(self@),
    {
        let v = u32_to_le_bytes(self.version);
        append_bytes(out, v.as_slice());
        append_bytes(out, &self.previous_block_hash);
        append_bytes(out, &self.merkle_root);
        append_bytes(out, &self.commitment_bytes);
        let t = u32_to_le_bytes(self.time);
        append_bytes(out, t.as_slice());
        let d = u32_to_le_bytes(self.difficulty_threshold);
        append_bytes(out, d.as_slice());
        append_bytes(out, &self.nonce);
        let n = self.solution.len();
        if n < 253 {
            out.push(n as u8);
        } else {
            out.push(0xfd);
            let l = u16_to_le_bytes(n as u16);
            append_bytes(out, l.as_slice());
        }
        append_bytes(out, self.solution.as_slice());
        let fp = self.fat_pointer_to_bft_block.to_bytes();
        append_bytes(out, fp.as_slice());
        proof {
            let h = self@;
            assert(out@ == old(out)@ + header_bytes(h));
        }
    }

    /// Read a header from `bytes` at `pos`: the header and the position after it.
    pub fn decode_at(bytes: &[u8], pos: usize) -> (r: Result<(BcBlockHeader, usize), SerializationError>)
        requires
            pos <= bytes@.len(),
        ensures
            match decode_header_spec(bytes@.subrange(pos as int, bytes@.len() as int)) {
                Err(e) => r == Err::<(BcBlockHeader, usize), SerializationError>(e),
                Ok((h, n)) => r matches Ok((hdr, end)) && hdr@ == h && end == pos + n,
            },
    {
        let ghost s = bytes@.subrange(pos as int, bytes@.len() as int);
        let len = bytes.len();
        if len - pos < 141 {
            return Err(SerializationError::UnexpectedEnd);
        }
        let first = bytes[pos + 140];
        let sol_len: usize;
        let pre_len: usize;
        if first == 36 {
            sol_len = 36;
            pre_len = 1;
        } else if first == 0xfd {
            if len - pos < 143 {
                return Err(SerializationError::UnexpectedEnd);
            }
            let lb = array_from_slice::<2>(bytes, pos + 141);
            proof {
                assert(lb@ == s.subrange(141, 143));
            }
            let declared = u16_from_le_bytes(&lb);
            if declared != 1344 {
                return Err(SerializationError::InvalidSolutionSize);
            }
            sol_len = 1344;
            pre_len = 3;
        } else {
            return Err(SerializationError::InvalidSolutionSize);
        }
        let sol_start = pos + 140 + pre_len;
        if len - sol_start < sol_len {
            return Err(SerializationError::UnexpectedEnd);
        }
        let sol_end = sol_start + sol_len;
        let fp = match FatPointerToBftBlock2::decode_at(bytes, sol_end) {
            None => {
                proof {
                    assert(bytes@.subrange(sol_end as int, bytes@.len() as int) == s.subrange(
                        sol_end - pos,
                        s.len() as int,
                    ));
                }
                return Err(SerializationError::UnexpectedEnd);
            },
            Some(x) => x,
        };
        let (fat_pointer, end) = fp;
        let vb = array_from_slice::<4>(bytes, pos);
        let tb = array_from_slice::<4>(bytes, pos + 100);
        let db = array_from_slice::<4>(bytes, pos + 104);
        let mut solution: Vec<u8> = Vec::new();
        append_bytes(&mut solution, slice_subrange(bytes, sol_start, sol_end));
        let h = BcBlockHeader {
            version: u32_from_le_bytes(&vb),
            previous_block_hash: array_from_slice::<32>(bytes, pos + 4),
            merkle_root: array_from_slice::<32>(bytes, pos + 36),
            commitment_bytes: array_from_slice::<32>(bytes, pos + 68),
            time: u32_from_le_bytes(&tb),
            difficulty_threshold: u32_from_le_bytes(&db),
            nonce: array_from_slice::<32>(bytes, pos + 108),
            solution,
            fat_pointer_to_bft_block: fat_pointer,
        };
        proof {
            assert(bytes@.subrange(sol_end as int, bytes@.len() as int) == s.subrange(
                sol_end - pos,
                s.len() as int,
            ));
            assert(vb@ == s.subrange(0, 4));
            assert(tb@ == s.subrange(100, 104));
            assert(db@ == s.subrange(104, 108));
            assert(bytes@.subrange(pos + 4, pos + 36) == s.subrange(4, 36));
            assert(bytes@.subrange(pos + 36, pos + 68) == s.subrange(36, 68));
            assert(bytes@.subrange(pos + 68, pos + 100) == s.subrange(68, 100));
            assert(bytes@.subrange(pos + 108, pos + 140) == s.subrange(108, 140));
            assert(bytes@.subrange(sol_start as int, sol_end as int) == s.subrange(
                sol_start - pos,
                sol_end - pos,
            ));
            if first == 36 {
                assert(s[140] == 36);
            } else {
                assert(s[140] == 0xfd);
            }
        }
        Ok((h, end))
    }
}

/// The bytes `bytes[start..end]`.
pub fn slice_subrange(bytes: &[u8], start: usize, end: usize) -> (r: &[u8])
    requires
        start <= end <= bytes@.len(),
    ensures
        r@ == bytes@.subrange(start as int, end as int),
{
    &bytes[start..end]
}

/// The BFT block content for Crosslink.
///
/// Headers are ordered from the PoW tip backwards; the last one is the
/// finalization candidate.
#[derive(Clone, Debug, PartialEq, Eq, PartialOrd, Ord)]
pub struct BftBlock {
    /// The version number.
    pub version: u32,
    /// The height of this BFT payload.
    pub height: u32,
    /// Fat pointer to the previous BFT block.
    pub previous_block_fat_ptr: FatPointerToBftBlock2,
    /// The height of the PoW block that is the finalization candidate.
    pub finalization_candidate_height: u32,
    /// The PoW headers.
    pub headers: Vec<BcBlockHeader>,
}

/// Mathematical view of a [BftBlock].
pub struct BftBlockView {
    /// The version number.
    pub version: u32,
    /// The BFT height.
    pub height: u32,
    /// Fat pointer to the previous BFT block.
    pub previous_block_fat_ptr: FatPointerView,
    /// Finalization candidate height.
    pub finalization_candidate_height: u32,
    /// The PoW headers.
    pub headers: Seq<HeaderView>,
}

impl View for BftBlock {
    type V = BftBlockView;

    open spec fn view(&self) -> BftBlockView {
        BftBlockView {
            version: self.version,
            height: self.height,
            previous_block_fat_ptr: self.previous_block_fat_ptr@,
            finalization_candidate_height: self.finalization_candidate_height,
            headers: self.headers@.map_values(|h: BcBlockHeader| h@),
        }
    }
}

/// Concatenated header layouts.
pub open spec fn headers_bytes(hs: Seq<HeaderView>) -> Seq<u8>
    decreases hs.len(),
{
    if hs.len() == 0 {
        seq![]
    } else {
        headers_bytes(hs.drop_last()) + header_bytes(hs.last())
    }
}

/// The byte layout of a BFT block: version, height, previous fat pointer,
/// finalization candidate height, header count, headers.
pub open spec fn block_bytes(b: BftBlockView) -> Seq<u8> {
    spec_u32_to_le_bytes(b.version) + spec_u32_to_le_bytes(b.height) + fat_pointer_bytes(
        b.previous_block_fat_ptr,
    ) + spec_u32_to_le_bytes(b.finalization_candidate_height) + spec_u32_to_le_bytes(
        b.headers.len() as u32,
    ) + headers_bytes(b.headers)
}

/// A block that can be written: every header has a valid solution size and
/// the header count fits in 32 bits.
pub open spec fn block_writable(b: BftBlockView) -> bool {
    &&& b.headers.len() <= u32::MAX
    &&& forall|i: int| 0 <= i < b.headers.len() ==> header_solution_ok(#[trigger] b.headers[i])
}

/// A block whose layout can be read back.
pub open spec fn block_wf(b: BftBlockView) -> bool {
    &&& b.headers.len() <= 2048
    &&& fat_pointer_wf(b.previous_block_fat_ptr)
    &&& forall|i: int| 0 <= i < b.headers.len() ==> header_wf(#[trigger] b.headers[i])
}

/// Decoding `n` consecutive headers from the front of `s`.
pub open spec fn decode_headers_spec(s: Seq<u8>, n: nat) -> Result<
    (Seq<HeaderView>, int),
    SerializationError,
>
    decreases n,
{
    if n == 0 {
        Ok((Seq::empty(), 0))
    } else {
        match decode_headers_spec(s, (n - 1) as nat) {
            Err(e) => Err(e),
            Ok((hs, k)) => {
                if 0 <= k <= s.len() {
                    match decode_header_spec(s.subrange(k, s.len() as int)) {
                        Err(e) => Err(e),
                        Ok((h, m)) => Ok((hs.push(h), k + m)),
                    }
                } else {
                    Err(SerializationError::UnexpectedEnd)
                }
            },
        }
    }
}

/// A failure decoding the first headers is the failure decoding more of them.
proof fn lemma_decode_headers_error_persists(s: Seq<u8>, m: nat, n: nat)
    requires
        m <= n,
        decode_headers_spec(s, m) is Err,
    ensures
        decode_headers_spec(s, n) == decode_headers_spec(s, m),
    decreases n - m,
{
    if m < n {
        lemma_decode_headers_error_persists(s, m, (n - 1) as nat);
    }
}

/// Decoding a BFT block from the front of `s`; bytes after the block are ignored.
pub open spec fn decode_block_spec(s: Seq<u8>) -> Result<(BftBlockView, int), SerializationError> {
    if s.len() < 8 {
        Err(SerializationError::UnexpectedEnd)
    } else {
        match decode_fat_pointer_spec(s.subrange(8, s.len() as int)) {
            None => Err(SerializationError::UnexpectedEnd),
            Some((fp, fp_len)) => {
                let at = 8 + fp_len;
                if s.len() < at + 8 {
                    Err(SerializationError::UnexpectedEnd)
                } else {
                    let count = spec_u32_from_le_bytes(s.subrange(at + 4, at + 8));
                    if count > 2048 {
                        Err(SerializationError::HeaderCountTooLarge)
                    } else {
                        match decode_headers_spec(s.subrange(at + 8, s.len() as int), count as nat) {
                            Err(e) => Err(e),
                            Ok((hs, hs_len)) => Ok(
                                (
                                    BftBlockView {
                                        version: spec_u32_from_le_bytes(s.subrange(0, 4)),
                                        height: spec_u32_from_le_bytes(s.subrange(4, 8)),
                                        previous_block_fat_ptr: fp,
                                        finalization_candidate_height: spec_u32_from_le_bytes(
                                            s.subrange(at, at + 4),
                                        ),
                                        headers: hs,
                                    },
                                    at + 8 + hs_len,
                                ),
                            ),
                        }
                    }
                }
            },
        }
    }
}

/// Reading back consecutive well-formed header layouts gives the headers.
#[verifier::rlimit(40)]
proof fn lemma_headers_roundtrip(hs: Seq<HeaderView>, rest: Seq<u8>)
    requires
        forall|i: int| 0 <= i < hs.len() ==> header_wf(#[trigger] hs[i]),
    ensures
        decode_headers_spec(headers_bytes(hs) + rest, hs.len()) == Ok::<
            (Seq<HeaderView>, int),
            SerializationError,
        >((hs, headers_bytes(hs).len() as int)),
    decreases hs.len(),
{
    if hs.len() == 0 {
        assert(hs == Seq::<HeaderView>::empty());
    } else {
        let n = hs.len();
        let init = hs.drop_last();
        let last = hs.last();
        assert forall|i: int| 0 <= i < init.len() implies header_wf(#[trigger] init[i]) by {
            assert(init[i] == hs[i]);
        }
        let hb = header_bytes(last);
        let tail = hb + rest;
        lemma_headers_roundtrip(init, tail);
        let ib = headers_bytes(init);
        let s = headers_bytes(hs) + rest;
        assert(headers_bytes(hs) == ib + hb);
        assert(s == ib + tail);
        let k = ib.len() as int;
        assert(decode_headers_spec(s, (n - 1) as nat) == Ok::<
            (Seq<HeaderView>, int),
            SerializationError,
        >((init, k)));
        assert(s.subrange(k, s.len() as int) == tail);
        lemma_header_roundtrip(last, rest);
        assert(decode_header_spec(tail) == Ok::<(HeaderView, int), SerializationError>(
            (last, hb.len() as int),
        ));
        assert(init.push(last) == hs);
        assert(decode_headers_spec(s, n) == Ok::<(Seq<HeaderView>, int), SerializationError>(
            (init.push(last), k + hb.len()),
        ));
    }
}

/// Reading back the layout of a well-formed block gives the block, whatever
/// bytes follow it.
pub proof fn lemma_block_roundtrip(b: BftBlockView, rest: Seq<u8>)
    requires
        block_wf(b),
    ensures
        decode_block_spec(block_bytes(b) + rest) == Ok::<(BftBlockView, int), SerializationError>(
            (b, block_bytes(b).len() as int),
        ),
{
    lemma_auto_spec_u32_to_from_le_bytes();
    let fp_bytes = fat_pointer_bytes(b.previous_block_fat_ptr);
    let hs_bytes = headers_bytes(b.headers);
    let tail = spec_u32_to_le_bytes(b.finalization_candidate_height) + spec_u32_to_le_bytes(
        b.headers.len() as u32,
    ) + hs_bytes + rest;
    lemma_fat_pointer_roundtrip(b.previous_block_fat_ptr, tail);
    lemma_headers_roundtrip(b.headers, rest);
    let s = block_bytes(b) + rest;
    let head = spec_u32_to_le_bytes(b.version) + spec_u32_to_le_bytes(b.height);
    assert(s == head + (fp_bytes + tail));
    assert(s.subrange(0, 4) == spec_u32_to_le_bytes(b.version));
    assert(s.subrange(4, 8) == spec_u32_to_le_bytes(b.height));
    assert(s.subrange(8, s.len() as int) == fp_bytes + tail);
    let at = 8 + fp_bytes.len() as int;
    assert(s.subrange(at, at + 4) == spec_u32_to_le_bytes(b.finalization_candidate_height));
    assert(s.subrange(at + 4, at + 8) == spec_u32_to_le_bytes(b.headers.len() as u32));
    assert(s.subrange(at + 8, s.len() as int) == hs_bytes + rest);
}


/// Why a BFT block is rejected.
#[derive(Clone, Copy, Debug, PartialEq, Eq, Structural)]
pub enum InvalidBftBlock {
    /// An incorrect number of headers was present.
    IncorrectConfirmationDepth {
        /// The expected number of headers.
        expected: u64,
        /// The number of headers present.
        actual: u64,
    },
    /// A header's version is not the known block version.
    UnknownVersion,
    /// A header's Equihash solution does not validate.
    InvalidSolution,
    /// A header does not name the hash of the header after it as its
    /// previous block.
    HeadersOutOfOrder,
}

/// Why a dynamic-sigma BFT block proposal is rejected.
#[derive(Clone, Copy, Debug, PartialEq, Eq, Structural)]
pub enum InvalidDynamicSigmaBftBlock {
    /// The proposal-carried dynamic-sigma evidence is invalid.
    DynamicSigmaEvidence(DynamicSigmaEvidenceError),
    /// The BFT block content does not satisfy the selected sigma.
    BftBlock(InvalidBftBlock),
    /// The payload block does not match the block permitted by the evidence.
    PayloadBlockMismatch,
}

/// Zcash Crosslink protocol parameters.
#[derive(Clone, Copy, Debug, PartialEq, Eq, Structural)]
pub struct ZcashCrosslinkParameters {
    /// The best-chain confirmation depth, sigma.
    pub bc_confirmation_depth_sigma: u64,
    /// The depth of unfinalized PoW blocks past which "Stalled Mode" activates.
    pub finalization_gap_bound: u64,
}

/// Crosslink parameters chosen for prototyping and testing.
pub fn prototype_parameters() -> (r: ZcashCrosslinkParameters)
    ensures
        r.bc_confirmation_depth_sigma == 3,
        r.finalization_gap_bound == 7,
{
    ZcashCrosslinkParameters { bc_confirmation_depth_sigma: 3, finalization_gap_bound: 7 }
}

/// The block built from validated parts: always version 1.
pub open spec fn constructed_block(
    height: u32,
    previous_block_fat_ptr: FatPointerView,
    finalization_candidate_height: u32,
    headers: Seq<HeaderView>,
) -> BftBlockView {
    BftBlockView {
        version: 1,
        height,
        previous_block_fat_ptr,
        finalization_candidate_height,
        headers,
    }
}

/// What constructing a block at a given confirmation depth returns.
pub open spec fn spec_try_from_with_confirmation_depth(
    expected: u64,
    height: u32,
    previous_block_fat_ptr: FatPointerView,
    finalization_candidate_height: u32,
    headers: Seq<HeaderView>,
) -> Result<BftBlockView, InvalidBftBlock> {
    if headers.len() != expected {
        Err(
            InvalidBftBlock::IncorrectConfirmationDepth {
                expected,
                actual: headers.len() as u64,
            },
        )
    } else {
        Ok(
            constructed_block(
                height,
                previous_block_fat_ptr,
                finalization_candidate_height,
                headers,
            ),
        )
    }
}

/// What constructing a block from dynamic-sigma evidence returns.
pub open spec fn spec_try_from_with_evidence(
    params: DynamicSigmaParameters,
    evidence: DynamicSigmaProposalEvidence,
    height: u32,
    previous_block_fat_ptr: FatPointerView,
    finalization_candidate_height: u32,
    headers: Seq<HeaderView>,
) -> Result<BftBlockView, InvalidDynamicSigmaBftBlock> {
    match spec_validate_evidence(params, evidence) {
        Err(e) => Err(InvalidDynamicSigmaBftBlock::DynamicSigmaEvidence(e)),
        Ok(_) => match spec_try_from_with_confirmation_depth(
            evidence.selected_sigma,
            height,
            previous_block_fat_ptr,
            finalization_candidate_height,
            headers,
        ) {
            Err(e) => Err(InvalidDynamicSigmaBftBlock::BftBlock(e)),
            Ok(b) => Ok(b),
        },
    }
}

/// The views of a vector of headers.
pub open spec fn header_views(headers: Seq<BcBlockHeader>) -> Seq<HeaderView> {
    headers.map_values(|h: BcBlockHeader| h@)
}

/// Trusted: `blake3::hash` returns the BLAKE3 digest of its input; named here
/// as a function of the input bytes.
pub uninterp spec fn blake3_digest(data: Seq<u8>) -> Seq<u8>;

/// Trusted: `blake3::keyed_hash` returns the keyed BLAKE3 digest of its
/// input; named here as a function of the key and the input bytes.
pub uninterp spec fn blake3_keyed_digest(key: Seq<u8>, data: Seq<u8>) -> Seq<u8>;

/// Trusted wrapper of `blake3::hash`: the 32-byte digest of `data`.
#[verifier::external_body]
fn blake3_hash_bytes(data: &[u8]) -> (r: [u8; 32])
    ensures
        r@ == blake3_digest(data@),
{
    *blake3::hash(data).as_bytes()
}

/// Trusted wrapper of `blake3::keyed_hash`: the 32-byte keyed digest of `data`.
#[verifier::external_body]
fn blake3_keyed_hash_bytes(key: &[u8; 32], data: &[u8]) -> (r: [u8; 32])
    ensures
        r@ == blake3_keyed_digest(key@, data@),
{
    *blake3::keyed_hash(key, data).as_bytes()
}

/// The hash identifying a block: BLAKE3 over its byte layout, keyed with
/// `hash_key` when there is one.
pub open spec fn block_identity_hash(hash_key: Option<[u8; 32]>, b: BftBlockView) -> Seq<u8> {
    match hash_key {
        Some(key) => blake3_keyed_digest(key@, block_bytes(b)),
        None => blake3_digest(block_bytes(b)),
    }
}

/// Trusted: `sha2::Sha256::digest` returns the SHA-256 digest of its input;
/// named here as a function of the input bytes.
pub uninterp spec fn sha256_digest(data: Seq<u8>) -> Seq<u8>;

/// Trusted wrapper of `sha2::Sha256::digest`: the 32-byte SHA-256 digest of `data`.
#[verifier::external_body]
fn sha256_bytes(data: &[u8]) -> (r: [u8; 32])
    ensures
        r@ == sha256_digest(data@),
{
    sha2::Sha256::digest(data).into()
}

/// The block hash of a header: the double SHA-256 of its byte layout.
pub open spec fn header_hash(h: HeaderView) -> Seq<u8> {
    sha256_digest(sha256_digest(header_bytes(h)))
}

impl BcBlockHeader {
    /// The hash of the PoW block this header belongs to.
    pub fn hash(&self) -> (r: [u8; 32])
        requires
            header_solution_ok(self@),
        ensures
            r@ == header_hash(self@),
    {
        let mut bytes: Vec<u8> = Vec::new();
        self.write_to(&mut bytes);
        proof {
            assert(bytes@ == header_bytes(self@));
        }
        let once = sha256_bytes(bytes.as_slice());
        sha256_bytes(&once)
    }
}

/// Trusted: whether `equihash::is_valid_solution` accepts `solution` for
/// `input` and `nonce` under the Equihash parameters `(n, k)`; named as a
/// function of its arguments.
pub uninterp spec fn equihash_solution_valid(
    n: u32,
    k: u32,
    input: Seq<u8>,
    nonce: Seq<u8>,
    solution: Seq<u8>,
) -> bool;

/// Trusted wrapper of `equihash::is_valid_solution`: whether the solution
/// validates. Only Zcash's two parameter pairs are admitted: the function
/// asserts on some other pairs that its own parameter check accepts.
#[verifier::external_body]
fn equihash_is_valid_solution(n: u32, k: u32, input: &[u8], nonce: &[u8], solution: &[u8]) -> (r:
    bool)
    requires
        (n == 200 && k == 9) || (n == 48 && k == 5),
    ensures
        r == equihash_solution_valid(n, k, input@, nonce@, solution@),
{
    equihash::is_valid_solution(n, k, input, nonce, solution).is_ok()
}

/// The only block version Zcash defines for PoW headers.
pub const ZCASH_BLOCK_VERSION: u32 = 4;

/// A header's version is the known block version.
pub open spec fn header_version_known(h: HeaderView) -> bool {
    h.version == ZCASH_BLOCK_VERSION
}

/// The Equihash input of a header: its first 108 bytes, from the version
/// through the difficulty threshold.
pub open spec fn equihash_input(h: HeaderView) -> Seq<u8> {
    header_bytes(h).subrange(0, 108)
}

/// A header's proof of work validates: its solution has a known size, and
/// Equihash accepts it with the parameters of that size, (200, 9) for 1344
/// bytes and (48, 5) for the 36 bytes of Regtest.
pub open spec fn header_pow_valid(h: HeaderView) -> bool {
    &&& header_solution_ok(h)
    &&& if h.solution.len() == 1344 {
        equihash_solution_valid(200, 9, equihash_input(h), h.nonce, h.solution)
    } else {
        equihash_solution_valid(48, 5, equihash_input(h), h.nonce, h.solution)
    }
}

/// Headers walk back from the tip: each names the hash of the header after
/// it as its previous block.
pub open spec fn headers_walk_back(hs: Seq<HeaderView>) -> bool {
    forall|i: int| 0 <= i < hs.len() - 1 ==> (#[trigger] hs[i]).previous_block_hash == header_hash(hs[i + 1])
}

/// What [BftBlock::try_from] gives: the header count must equal `sigma`,
/// every header must carry the known version, every solution must have a
/// known size, the headers must walk back from the tip, and every solution
/// must validate, checked in that order.
pub open spec fn spec_try_from(
    sigma: u64,
    height: u32,
    previous_block_fat_ptr: FatPointerView,
    finalization_candidate_height: u32,
    headers: Seq<HeaderView>,
) -> Result<BftBlockView, InvalidBftBlock> {
    match spec_try_from_with_confirmation_depth(
        sigma,
        height,
        previous_block_fat_ptr,
        finalization_candidate_height,
        headers,
    ) {
        Err(e) => Err(e),
        Ok(b) => if exists|i: int| 0 <= i < headers.len() && !header_version_known(#[trigger] headers[i]) {
            Err(InvalidBftBlock::UnknownVersion)
        } else if exists|i: int| 0 <= i < headers.len() && !header_solution_ok(#[trigger] headers[i]) {
            Err(InvalidBftBlock::InvalidSolution)
        } else if !headers_walk_back(headers) {
            Err(InvalidBftBlock::HeadersOutOfOrder)
        } else if exists|i: int| 0 <= i < headers.len() && !header_pow_valid(#[trigger] headers[i]) {
            Err(InvalidBftBlock::InvalidSolution)
        } else {
            Ok(b)
        },
    }
}

impl BcBlockHeader {
    /// Whether the header's proof of work validates.
    pub fn pow_valid(&self) -> (r: bool)
        ensures
            r == header_pow_valid(self@),
    {
        let len = self.solution.len();
        if len != 1344 && len != 36 {
            return false;
        }
        let mut bytes: Vec<u8> = Vec::new();
        self.write_to(&mut bytes);
        proof {
            assert(bytes@ == header_bytes(self@));
        }
        let input = slice_subrange(bytes.as_slice(), 0, 108);
        if len == 1344 {
            equihash_is_valid_solution(200, 9, input, &self.nonce, self.solution.as_slice())
        } else {
            equihash_is_valid_solution(48, 5, input, &self.nonce, self.solution.as_slice())
        }
    }
}

impl BftBlock {
    /// Refer to the header that is the finalization candidate for this block:
    /// the last header.
    pub fn finalization_candidate(&self) -> (r: &BcBlockHeader)
        requires
            self.headers@.len() > 0,
        ensures
            r@ == self@.headers.last(),
    {
        &self.headers[self.headers.len() - 1]
    }

    /// Construct a block using the fixed protocol confirmation depth,
    /// checking the headers: their count, their versions, their proofs of
    /// work, and that they walk back from the tip.
    #[verifier::loop_isolation(false)]
    pub fn try_from(
        params: &ZcashCrosslinkParameters,
        height: u32,
        previous_block_fat_ptr: FatPointerToBftBlock2,
        finalization_candidate_height: u32,
        headers: Vec<BcBlockHeader>,
    ) -> (r: Result<BftBlock, InvalidBftBlock>)
        ensures
            match spec_try_from(
                params.bc_confirmation_depth_sigma,
                height,
                previous_block_fat_ptr@,
                finalization_candidate_height,
                header_views(headers@),
            ) {
                Ok(b) => r matches Ok(block) && block@ == b,
                Err(e) => r == Err::<BftBlock, InvalidBftBlock>(e),
            },
    {
        let ghost hs = header_views(headers@);
        let block = match Self::try_from_with_confirmation_depth(
            params.bc_confirmation_depth_sigma,
            height,
            previous_block_fat_ptr,
            finalization_candidate_height,
            headers,
        ) {
            Ok(block) => block,
            Err(e) => return Err(e),
        };
        proof {
            assert(header_views(block.headers@) == hs);
        }
        let n = block.headers.len();
        let mut i: usize = 0;
        while i < n
            invariant
                0 <= i <= n,
                n == hs.len(),
                hs.len() == params.bc_confirmation_depth_sigma,
                header_views(block.headers@) == hs,
                forall|j: int| 0 <= j < i ==> header_version_known(#[trigger] hs[j]),
            decreases n - i,
        {
            proof {
                assert(hs[i as int] == block.headers@[i as int]@);
            }
            if block.headers[i].version != ZCASH_BLOCK_VERSION {
                assert(!header_version_known(hs[i as int]));
                return Err(InvalidBftBlock::UnknownVersion);
            }
            i = i + 1;
        }
        let mut i: usize = 0;
        while i < n
            invariant
                0 <= i <= n,
                n == hs.len(),
                hs.len() == params.bc_confirmation_depth_sigma,
                header_views(block.headers@) == hs,
                forall|j: int| 0 <= j < n ==> header_version_known(#[trigger] hs[j]),
                forall|j: int| 0 <= j < i ==> header_solution_ok(#[trigger] hs[j]),
            decreases n - i,
        {
            proof {
                assert(hs[i as int] == block.headers@[i as int]@);
            }
            let len = block.headers[i].solution.len();
            if len != 1344 && len != 36 {
                assert(!header_solution_ok(hs[i as int]));
                return Err(InvalidBftBlock::InvalidSolution);
            }
            i = i + 1;
        }
        let last: usize = if n == 0 {
            0
        } else {
            n - 1
        };
        let mut i: usize = 0;
        while i < last
            invariant
                0 <= i <= last,
                last == if n == 0 { 0 } else { n - 1 },
                n == hs.len(),
                hs.len() == params.bc_confirmation_depth_sigma,
                header_views(block.headers@) == hs,
                forall|j: int| 0 <= j < n ==> header_version_known(#[trigger] hs[j]),
                forall|j: int| 0 <= j < n ==> header_solution_ok(#[trigger] hs[j]),
                forall|j: int| 0 <= j < i && j < hs.len() - 1 ==> (#[trigger] hs[j]).previous_block_hash
                    == header_hash(hs[j + 1]),
            decreases n - i,
        {
            proof {
                assert(hs[i as int] == block.headers@[i as int]@);
                assert(hs[i + 1] == block.headers@[i + 1]@);
                assert(header_solution_ok(hs[i + 1]));
            }
            let next_hash = block.headers[i + 1].hash();
            if !bytes_equal(&block.headers[i].previous_block_hash, &next_hash) {
                assert(hs[i as int].previous_block_hash != header_hash(hs[i + 1]));
                assert(!headers_walk_back(hs));
                return Err(InvalidBftBlock::HeadersOutOfOrder);
            }
            i = i + 1;
        }
        proof {
            assert(headers_walk_back(hs));
        }
        let mut i: usize = 0;
        while i < n
            invariant
                0 <= i <= n,
                n == hs.len(),
                hs.len() == params.bc_confirmation_depth_sigma,
                header_views(block.headers@) == hs,
                forall|j: int| 0 <= j < n ==> header_version_known(#[trigger] hs[j]),
                forall|j: int| 0 <= j < n ==> header_solution_ok(#[trigger] hs[j]),
                headers_walk_back(hs),
                forall|j: int| 0 <= j < i ==> header_pow_valid(#[trigger] hs[j]),
            decreases n - i,
        {
            proof {
                assert(hs[i as int] == block.headers@[i as int]@);
            }
            if !block.headers[i].pow_valid() {
                assert(!header_pow_valid(hs[i as int]));
                return Err(InvalidBftBlock::InvalidSolution);
            }
            i = i + 1;
        }
        Ok(block)
    }

    /// Construct a block whose header count must equal a selected
    /// confirmation depth.
    pub fn try_from_with_confirmation_depth(
        expected_confirmation_depth: u64,
        height: u32,
        previous_block_fat_ptr: FatPointerToBftBlock2,
        finalization_candidate_height: u32,
        headers: Vec<BcBlockHeader>,
    ) -> (r: Result<BftBlock, InvalidBftBlock>)
        ensures
            match spec_try_from_with_confirmation_depth(
                expected_confirmation_depth,
                height,
                previous_block_fat_ptr@,
                finalization_candidate_height,
                header_views(headers@),
            ) {
                Ok(b) => r matches Ok(block) && block@ == b,
                Err(e) => r == Err::<BftBlock, InvalidBftBlock>(e),
            },
    {
        let expected = expected_confirmation_depth;
        let actual = headers.len() as u64;
        if actual != expected {
            return Err(InvalidBftBlock::IncorrectConfirmationDepth { expected, actual });
        }
        Ok(
            BftBlock {
                version: 1,
                height,
                previous_block_fat_ptr,
                finalization_candidate_height,
                headers,
            },
        )
    }

    /// Construct a block from proposal-carried dynamic-sigma evidence: the
    /// evidence must be valid, and the selected sigma is the required header count.
    pub fn try_from_with_dynamic_sigma_evidence(
        dynamic_sigma_params: DynamicSigmaParameters,
        dynamic_sigma_evidence: DynamicSigmaProposalEvidence,
        height: u32,
        previous_block_fat_ptr: FatPointerToBftBlock2,
        finalization_candidate_height: u32,
        headers: Vec<BcBlockHeader>,
    ) -> (r: Result<BftBlock, InvalidDynamicSigmaBftBlock>)
        requires
            evidence_fits(dynamic_sigma_params, dynamic_sigma_evidence),
        ensures
            match spec_try_from_with_evidence(
                dynamic_sigma_params,
                dynamic_sigma_evidence,
                height,
                previous_block_fat_ptr@,
                finalization_candidate_height,
                header_views(headers@),
            ) {
                Ok(b) => r matches Ok(block) && block@ == b,
                Err(e) => r == Err::<BftBlock, InvalidDynamicSigmaBftBlock>(e),
            },
    {
        match validate_dynamic_sigma_evidence(dynamic_sigma_params, dynamic_sigma_evidence) {
            Err(e) => {
                return Err(InvalidDynamicSigmaBftBlock::DynamicSigmaEvidence(e));
            },
            Ok(_) => {},
        }
        match Self::try_from_with_confirmation_depth(
            dynamic_sigma_evidence.selected_sigma,
            height,
            previous_block_fat_ptr,
            finalization_candidate_height,
            headers,
        ) {
            Err(e) => Err(InvalidDynamicSigmaBftBlock::BftBlock(e)),
            Ok(b) => Ok(b),
        }
    }

    /// Append the byte layout of this block to `out`; see [block_bytes].
    pub fn write_to(&self, out: &mut Vec<u8>)
        requires
            block_writable(self@),
        ensures
            final(out)@ == old(out)@ + block_bytes(self@),
    {
        let v = u32_to_le_bytes(self.version);
        append_bytes(out, v.as_slice());
        let h = u32_to_le_bytes(self.height);
        append_bytes(out, h.as_slice());
        let fp = self.previous_block_fat_ptr.to_bytes();
        append_bytes(out, fp.as_slice());
        let f = u32_to_le_bytes(self.finalization_candidate_height);
        append_bytes(out, f.as_slice());
        let c = u32_to_le_bytes(self.headers.len() as u32);
        append_bytes(out, c.as_slice());
        let ghost prefix = out@;
        let ghost hs = self@.headers;
        let mut i: usize = 0;
        while i < self.headers.len()
            invariant
                0 <= i <= hs.len(),
                hs == self@.headers,
                block_writable(self@),
                out@ == prefix + headers_bytes(hs.subrange(0, i as int)),
            decreases hs.len() - i,
        {
            proof {
                assert(hs[i as int] == self.headers@[i as int]@);
                assert(header_solution_ok(hs[i as int]));
            }
            self.headers[i].write_to(out);
            proof {
                assert(hs.subrange(0, i + 1).drop_last() == hs.subrange(0, i as int));
            }
            i = i + 1;
        }
        proof {
            assert(hs.subrange(0, hs.len() as int) == hs);
        }
    }

    /// The byte layout of this block; see [block_bytes].
    pub fn zcash_serialize_to_vec(&self) -> (r: Vec<u8>)
        requires
            block_writable(self@),
        ensures
            r@ == block_bytes(self@),
    {
        let mut out: Vec<u8> = Vec::new();
        self.write_to(&mut out);
        out
    }

    /// Read a block from `bytes` at `pos`: the block and the position after it.
    pub fn decode_at(bytes: &[u8], pos: usize) -> (r: Result<(BftBlock, usize), SerializationError>)
        requires
            pos <= bytes@.len(),
        ensures
            match decode_block_spec(bytes@.subrange(pos as int, bytes@.len() as int)) {
                Err(e) => r == Err::<(BftBlock, usize), SerializationError>(e),
                Ok((b, n)) => r matches Ok((block, end)) && block@ == b && end == pos + n,
            },
    {
        let ghost s = bytes@.subrange(pos as int, bytes@.len() as int);
        let len = bytes.len();
        if len - pos < 8 {
            return Err(SerializationError::UnexpectedEnd);
        }
        let vb = array_from_slice::<4>(bytes, pos);
        let hb = array_from_slice::<4>(bytes, pos + 4);
        proof {
            assert(vb@ == s.subrange(0, 4));
            assert(hb@ == s.subrange(4, 8));
            assert(bytes@.subrange(pos + 8, bytes@.len() as int) == s.subrange(8, s.len() as int));
        }
        let (fp, at) = match FatPointerToBftBlock2::decode_at(bytes, pos + 8) {
            None => {
                return Err(SerializationError::UnexpectedEnd);
            },
            Some(x) => x,
        };
        if len - at < 8 {
            return Err(SerializationError::UnexpectedEnd);
        }
        let fb = array_from_slice::<4>(bytes, at);
        let cb = array_from_slice::<4>(bytes, at + 4);
        let count = u32_from_le_bytes(&cb);
        proof {
            assert(fb@ == s.subrange(at - pos, at - pos + 4));
            assert(cb@ == s.subrange(at - pos + 4, at - pos + 8));
        }
        if count > 2048 {
            return Err(SerializationError::HeaderCountTooLarge);
        }
        let start = at + 8;
        let ghost hs_s = bytes@.subrange(start as int, bytes@.len() as int);
        let ghost fp_len = at - pos - 8;
        proof {
            assert(hs_s == s.subrange(start - pos, s.len() as int));
            assert(decode_fat_pointer_spec(s.subrange(8, s.len() as int)) == Some((fp@, fp_len)));
            assert(spec_u32_from_le_bytes(s.subrange(8 + fp_len + 4, 8 + fp_len + 8)) == count);
        }
        let mut headers: Vec<BcBlockHeader> = Vec::new();
        let mut cursor = start;
        let mut i: u32 = 0;
        proof {
            assert(header_views(headers@) == Seq::<HeaderView>::empty());
        }
        #[verifier::loop_isolation(false)]
        while i < count
            invariant
                start <= cursor <= len,
                len == bytes@.len(),
                hs_s == bytes@.subrange(start as int, bytes@.len() as int),
                s == bytes@.subrange(pos as int, bytes@.len() as int),
                hs_s == s.subrange(8 + fp_len + 8, s.len() as int),
                start - pos == 16 + fp_len,
                0 <= i <= count,
                decode_headers_spec(hs_s, i as nat) == Ok::<
                    (Seq<HeaderView>, int),
                    SerializationError,
                >((header_views(headers@), cursor - start)),
            decreases count - i,
        {
            proof {
                assert(bytes@.subrange(cursor as int, bytes@.len() as int) == hs_s.subrange(
                    cursor - start,
                    hs_s.len() as int,
                ));
            }
            match BcBlockHeader::decode_at(bytes, cursor) {
                Err(e) => {
                    proof {
                        assert(decode_headers_spec(hs_s, (i + 1) as nat) == Err::<
                            (Seq<HeaderView>, int),
                            SerializationError,
                        >(e));
                        lemma_decode_headers_error_persists(hs_s, (i + 1) as nat, count as nat);
                        assert(decode_headers_spec(s.subrange(8 + fp_len + 8, s.len() as int), count as nat) == Err::<
                            (Seq<HeaderView>, int),
                            SerializationError,
                        >(e));
                    }
                    return Err(e);
                },
                Ok((h, next)) => {
                    proof {
                        let old_views = header_views(headers@);
                        assert(header_views(headers@.push(h)) == old_views.push(h@));
                    }
                    headers.push(h);
                    cursor = next;
                },
            }
            i = i + 1;
        }
        let block = BftBlock {
            version: u32_from_le_bytes(&vb),
            height: u32_from_le_bytes(&hb),
            previous_block_fat_ptr: fp,
            finalization_candidate_height: u32_from_le_bytes(&fb),
            headers,
        };
        Ok((block, cursor))
    }

    /// Decode a block from the front of `bytes`; bytes after it are ignored.
    pub fn zcash_deserialize(bytes: &[u8]) -> (r: Result<BftBlock, SerializationError>)
        ensures
            match decode_block_spec(bytes@) {
                Err(e) => r == Err::<BftBlock, SerializationError>(e),
                Ok((b, _)) => r matches Ok(block) && block@ == b,
            },
    {
        proof {
            assert(bytes@.subrange(0, bytes@.len() as int) == bytes@);
        }
        match Self::decode_at(bytes, 0) {
            Err(e) => Err(e),
            Ok((b, _)) => Ok(b),
        }
    }

    /// A copy of this block.
    pub fn duplicate(&self) -> (r: BftBlock)
        ensures
            r@ == self@,
    {
        BftBlock {
            version: self.version,
            height: self.height,
            previous_block_fat_ptr: self.previous_block_fat_ptr.duplicate(),
            finalization_candidate_height: self.finalization_candidate_height,
            headers: duplicate_headers(&self.headers),
        }
    }

    /// The hash that identifies the block: the BLAKE3 hash of its byte
    /// layout, keyed with `hash_key` when there is one (the BFT engine's
    /// value-id key) and unkeyed in test mode.
    pub fn blake3_hash(&self, hash_key: &Option<[u8; 32]>) -> (r: Blake3Hash)
        requires
            block_writable(self@),
        ensures
            r@ == block_identity_hash(*hash_key, self@),
    {
        let bytes = self.zcash_serialize_to_vec();
        match hash_key {
            Some(key) => Blake3Hash(blake3_keyed_hash_bytes(key, bytes.as_slice())),
            None => Blake3Hash(blake3_hash_bytes(bytes.as_slice())),
        }
    }

    /// Whether the block can be written out (and so hashed): each header's
    /// solution has one of the two Equihash sizes.
    pub fn writable(&self) -> (r: bool)
        ensures
            r == block_writable(self@),
    {
        if self.headers.len() > 4294967295 {
            return false;
        }
        let mut i: usize = 0;
        while i < self.headers.len()
            invariant
                0 <= i <= self.headers@.len(),
                self.headers@.len() <= u32::MAX,
                forall|j: int| 0 <= j < i ==> header_solution_ok(#[trigger] self@.headers[j]),
            decreases self.headers@.len() - i,
        {
            let n = self.headers[i].solution.len();
            proof {
                assert(self@.headers[i as int] == self.headers@[i as int]@);
            }
            if n != 1344 && n != 36 {
                return false;
            }
            i = i + 1;
        }
        true
    }

    /// The hash of the previous block, as named by the previous fat pointer.
    pub fn previous_block_hash(&self) -> (r: Blake3Hash)
        ensures
            r@ == self@.previous_block_fat_ptr.vote.subrange(0, 32),
    {
        self.previous_block_fat_ptr.points_at_block_hash()
    }
}

/// Copies of a vector of headers.
pub fn duplicate_headers(headers: &Vec<BcBlockHeader>) -> (r: Vec<BcBlockHeader>)
    ensures
        header_views(r@) == header_views(headers@),
{
    let mut out: Vec<BcBlockHeader> = Vec::new();
    let mut i: usize = 0;
    while i < headers.len()
        invariant
            0 <= i <= headers@.len(),
            out@.len() == i,
            forall|j: int| 0 <= j < i ==> (#[trigger] out@[j])@ == headers@[j]@,
        decreases headers@.len() - i,
    {
        out.push(headers[i].duplicate());
        i = i + 1;
    }
    proof {
        assert(header_views(out@) == header_views(headers@));
    }
    out
}

/// Magic prefix for serialized dynamic-sigma BFT block payloads: `CLDSIG01`.
pub const DYNAMIC_SIGMA_BFT_BLOCK_PAYLOAD_MAGIC: [u8; 8] = [67, 76, 68, 83, 73, 71, 48, 49];

/// The magic prefix as a byte sequence.
pub open spec fn magic_bytes() -> Seq<u8> {
    seq![67u8, 76u8, 68u8, 83u8, 73u8, 71u8, 48u8, 49u8]
}

/// The fixed-size layout of proposal evidence: the raw telemetry fields in
/// declaration order (little-endian integers), the two margins, then the
/// selected sigma.
pub open spec fn evidence_bytes(e: DynamicSigmaProposalEvidence) -> Seq<u8> {
    let t = e.raw_telemetry;
    spec_u128_le(t.total_hash_work) + spec_u128_le(t.crosslink_participating_hash_work)
        + spec_u64_to_le_bytes(t.total_tenderlink_rounds) + spec_u64_to_le_bytes(
        t.failed_tenderlink_rounds,
    ) + seq![t.measured_block_interval_variance_pct] + spec_u64_to_le_bytes(
        t.measured_observed_reorg_depth,
    ) + spec_u64_to_le_bytes(t.rollback_risk.base_sigma_ppm) + spec_u64_to_le_bytes(
        t.rollback_risk.raised_sigma_ppm,
    ) + spec_u64_to_le_bytes(t.rollback_risk.max_sigma_ppm) + spec_u128_le(t.value_at_risk_units)
        + spec_u128_le(t.max_acceptable_expected_loss_units) + seq![
        e.margins.coverage_risk_margin_pct,
        e.margins.round_failure_margin_pct,
    ] + spec_u64_to_le_bytes(e.selected_sigma)
}

/// The evidence stored in its 123-byte layout.
pub open spec fn evidence_from_bytes(s: Seq<u8>) -> DynamicSigmaProposalEvidence {
    DynamicSigmaProposalEvidence {
        raw_telemetry: DynamicSigmaRawTelemetry {
            total_hash_work: spec_u128_from_le(s.subrange(0, 16)),
            crosslink_participating_hash_work: spec_u128_from_le(s.subrange(16, 32)),
            total_tenderlink_rounds: spec_u64_from_le_bytes(s.subrange(32, 40)),
            failed_tenderlink_rounds: spec_u64_from_le_bytes(s.subrange(40, 48)),
            measured_block_interval_variance_pct: s[48],
            measured_observed_reorg_depth: spec_u64_from_le_bytes(s.subrange(49, 57)),
            rollback_risk: RollbackRiskCurve {
                base_sigma_ppm: spec_u64_from_le_bytes(s.subrange(57, 65)),
                raised_sigma_ppm: spec_u64_from_le_bytes(s.subrange(65, 73)),
                max_sigma_ppm: spec_u64_from_le_bytes(s.subrange(73, 81)),
            },
            value_at_risk_units: spec_u128_from_le(s.subrange(81, 97)),
            max_acceptable_expected_loss_units: spec_u128_from_le(s.subrange(97, 113)),
        },
        margins: TelemetryEstimateMargins {
            coverage_risk_margin_pct: s[113],
            round_failure_margin_pct: s[114],
        },
        selected_sigma: spec_u64_from_le_bytes(s.subrange(115, 123)),
    }
}

/// Reading back the layout of evidence gives the evidence.
pub proof fn lemma_evidence_roundtrip(e: DynamicSigmaProposalEvidence, rest: Seq<u8>)
    ensures
        evidence_bytes(e).len() == 123,
        evidence_from_bytes(evidence_bytes(e) + rest) == e,
{
    lemma_auto_spec_u64_to_from_le_bytes();
    let t = e.raw_telemetry;
    lemma_u128_le_roundtrip(t.total_hash_work);
    lemma_u128_le_roundtrip(t.crosslink_participating_hash_work);
    lemma_u128_le_roundtrip(t.value_at_risk_units);
    lemma_u128_le_roundtrip(t.max_acceptable_expected_loss_units);
    let s = evidence_bytes(e) + rest;
    assert(s.subrange(0, 16) == spec_u128_le(t.total_hash_work));
    assert(s.subrange(16, 32) == spec_u128_le(t.crosslink_participating_hash_work));
    assert(s.subrange(32, 40) == spec_u64_to_le_bytes(t.total_tenderlink_rounds));
    assert(s.subrange(40, 48) == spec_u64_to_le_bytes(t.failed_tenderlink_rounds));
    assert(s.subrange(49, 57) == spec_u64_to_le_bytes(t.measured_observed_reorg_depth));
    assert(s.subrange(57, 65) == spec_u64_to_le_bytes(t.rollback_risk.base_sigma_ppm));
    assert(s.subrange(65, 73) == spec_u64_to_le_bytes(t.rollback_risk.raised_sigma_ppm));
    assert(s.subrange(73, 81) == spec_u64_to_le_bytes(t.rollback_risk.max_sigma_ppm));
    assert(s.subrange(81, 97) == spec_u128_le(t.value_at_risk_units));
    assert(s.subrange(97, 113) == spec_u128_le(t.max_acceptable_expected_loss_units));
    assert(s.subrange(115, 123) == spec_u64_to_le_bytes(e.selected_sigma));
    assert(evidence_from_bytes(s).raw_telemetry.rollback_risk == t.rollback_risk);
    assert(evidence_from_bytes(s).raw_telemetry == t);
    assert(evidence_from_bytes(s).margins == e.margins);
}

/// Append the layout of `e` to `out`; see [evidence_bytes].
pub fn write_evidence(out: &mut Vec<u8>, e: &DynamicSigmaProposalEvidence)
    ensures
        final(out)@ == old(out)@ + evidence_bytes(*e),
{
    let t = &e.raw_telemetry;
    write_u128_le(out, t.total_hash_work);
    write_u128_le(out, t.crosslink_participating_hash_work);
    let a = u64_to_le_bytes(t.total_tenderlink_rounds);
    append_bytes(out, a.as_slice());
    let b = u64_to_le_bytes(t.failed_tenderlink_rounds);
    append_bytes(out, b.as_slice());
    out.push(t.measured_block_interval_variance_pct);
    let c = u64_to_le_bytes(t.measured_observed_reorg_depth);
    append_bytes(out, c.as_slice());
    let d = u64_to_le_bytes(t.rollback_risk.base_sigma_ppm);
    append_bytes(out, d.as_slice());
    let f = u64_to_le_bytes(t.rollback_risk.raised_sigma_ppm);
    append_bytes(out, f.as_slice());
    let g = u64_to_le_bytes(t.rollback_risk.max_sigma_ppm);
    append_bytes(out, g.as_slice());
    write_u128_le(out, t.value_at_risk_units);
    write_u128_le(out, t.max_acceptable_expected_loss_units);
    out.push(e.margins.coverage_risk_margin_pct);
    out.push(e.margins.round_failure_margin_pct);
    let h = u64_to_le_bytes(e.selected_sigma);
    append_bytes(out, h.as_slice());
    proof {
        assert(out@ == old(out)@ + evidence_bytes(*e));
    }
}

fn read_u64_at(bytes: &[u8], pos: usize) -> (r: u64)
    requires
        pos + 8 <= bytes@.len(),
    ensures
        r == spec_u64_from_le_bytes(bytes@.subrange(pos as int, pos + 8)),
{
    let b = array_from_slice::<8>(bytes, pos);
    u64_from_le_bytes(&b)
}

/// Read evidence from its 123-byte layout at `pos`.
pub fn read_evidence(bytes: &[u8], pos: usize) -> (r: DynamicSigmaProposalEvidence)
    requires
        pos + 123 <= bytes@.len(),
    ensures
        r == evidence_from_bytes(bytes@.subrange(pos as int, bytes@.len() as int)),
{
    let ghost s = bytes@.subrange(pos as int, bytes@.len() as int);
    let _len = bytes.len();
    let r = DynamicSigmaProposalEvidence {
        raw_telemetry: DynamicSigmaRawTelemetry {
            total_hash_work: read_u128_le(bytes, pos),
            crosslink_participating_hash_work: read_u128_le(bytes, pos + 16),
            total_tenderlink_rounds: read_u64_at(bytes, pos + 32),
            failed_tenderlink_rounds: read_u64_at(bytes, pos + 40),
            measured_block_interval_variance_pct: bytes[pos + 48],
            measured_observed_reorg_depth: read_u64_at(bytes, pos + 49),
            rollback_risk: RollbackRiskCurve {
                base_sigma_ppm: read_u64_at(bytes, pos + 57),
                raised_sigma_ppm: read_u64_at(bytes, pos + 65),
                max_sigma_ppm: read_u64_at(bytes, pos + 73),
            },
            value_at_risk_units: read_u128_le(bytes, pos + 81),
            max_acceptable_expected_loss_units: read_u128_le(bytes, pos + 97),
        },
        margins: TelemetryEstimateMargins {
            coverage_risk_margin_pct: bytes[pos + 113],
            round_failure_margin_pct: bytes[pos + 114],
        },
        selected_sigma: read_u64_at(bytes, pos + 115),
    };
    proof {
        assert(bytes@.subrange(pos as int, pos + 16) == s.subrange(0, 16));
        assert(bytes@.subrange(pos + 16, pos + 32) == s.subrange(16, 32));
        assert(bytes@.subrange(pos + 32, pos + 40) == s.subrange(32, 40));
        assert(bytes@.subrange(pos + 40, pos + 48) == s.subrange(40, 48));
        assert(bytes@.subrange(pos + 49, pos + 57) == s.subrange(49, 57));
        assert(bytes@.subrange(pos + 57, pos + 65) == s.subrange(57, 65));
        assert(bytes@.subrange(pos + 65, pos + 73) == s.subrange(65, 73));
        assert(bytes@.subrange(pos + 73, pos + 81) == s.subrange(73, 81));
        assert(bytes@.subrange(pos + 81, pos + 97) == s.subrange(81, 97));
        assert(bytes@.subrange(pos + 97, pos + 113) == s.subrange(97, 113));
        assert(bytes@.subrange(pos + 115, pos + 123) == s.subrange(115, 123));
    }
    r
}

/// The magic prefix as an array.
pub fn dynamic_sigma_magic() -> (r: [u8; 8])
    ensures
        r@ == magic_bytes(),
{
    let r = DYNAMIC_SIGMA_BFT_BLOCK_PAYLOAD_MAGIC;
    proof {
        assert(r@ == magic_bytes());
    }
    r
}

/// Whether `s` begins with the dynamic-sigma magic prefix.
pub open spec fn starts_with_magic(s: Seq<u8>) -> bool {
    s.len() >= 8 && s.subrange(0, 8) == magic_bytes()
}

/// A dynamic-sigma BFT payload carrying proposal evidence and the BFT block.
#[derive(Clone, Debug, PartialEq, Eq)]
pub struct DynamicSigmaBftBlockPayload {
    /// Proposal-carried evidence used to validate the selected sigma.
    pub evidence: DynamicSigmaProposalEvidence,
    /// The BFT block constructed using the evidence-selected sigma.
    pub block: BftBlock,
}

/// A decoded Tenderlink BFT block payload.
#[derive(Clone, Debug, PartialEq, Eq)]
pub enum BftBlockPayload {
    /// Legacy fixed-sigma BFT block bytes.
    FixedSigma(BftBlock),
    /// Tagged dynamic-sigma evidence plus BFT block bytes.
    DynamicSigma(DynamicSigmaBftBlockPayload),
}

/// Mathematical view of a [BftBlockPayload].
pub enum PayloadView {
    /// A fixed-sigma block.
    FixedSigma(BftBlockView),
    /// Dynamic-sigma evidence and a block.
    DynamicSigma(DynamicSigmaProposalEvidence, BftBlockView),
}

impl View for BftBlockPayload {
    type V = PayloadView;

    open spec fn view(&self) -> PayloadView {
        match self {
            BftBlockPayload::FixedSigma(b) => PayloadView::FixedSigma(b@),
            BftBlockPayload::DynamicSigma(p) => PayloadView::DynamicSigma(p.evidence, p.block@),
        }
    }
}

/// The byte layout of a dynamic-sigma payload: magic, evidence, block.
pub open spec fn dynamic_payload_bytes(e: DynamicSigmaProposalEvidence, b: BftBlockView) -> Seq<u8> {
    magic_bytes() + evidence_bytes(e) + block_bytes(b)
}

/// Decoding a dynamic-sigma payload from the front of `s`.
pub open spec fn decode_dynamic_payload_spec(s: Seq<u8>) -> Result<
    (DynamicSigmaProposalEvidence, BftBlockView),
    SerializationError,
> {
    if s.len() < 8 {
        Err(SerializationError::UnexpectedEnd)
    } else if s.subrange(0, 8) != magic_bytes() {
        Err(SerializationError::InvalidDynamicSigmaMagic)
    } else if s.len() < 131 {
        Err(SerializationError::UnexpectedEnd)
    } else {
        match decode_block_spec(s.subrange(131, s.len() as int)) {
            Err(e) => Err(e),
            Ok((b, _)) => Ok((evidence_from_bytes(s.subrange(8, s.len() as int)), b)),
        }
    }
}

/// Decoding a Tenderlink payload: tagged bytes as a dynamic-sigma payload,
/// anything else as a legacy block.
pub open spec fn decode_payload_spec(s: Seq<u8>) -> Result<PayloadView, SerializationError> {
    if starts_with_magic(s) {
        match decode_dynamic_payload_spec(s) {
            Err(e) => Err(e),
            Ok((e, b)) => Ok(PayloadView::DynamicSigma(e, b)),
        }
    } else {
        match decode_block_spec(s) {
            Err(e) => Err(e),
            Ok((b, _)) => Ok(PayloadView::FixedSigma(b)),
        }
    }
}

/// What validating a dynamic-sigma payload returns: the evidence must permit
/// a block with the payload's fields whose layout is the payload block's layout.
pub open spec fn spec_validate_payload(
    params: DynamicSigmaParameters,
    e: DynamicSigmaProposalEvidence,
    b: BftBlockView,
) -> Result<(), InvalidDynamicSigmaBftBlock> {
    match spec_try_from_with_evidence(
        params,
        e,
        b.height,
        b.previous_block_fat_ptr,
        b.finalization_candidate_height,
        b.headers,
    ) {
        Err(err) => Err(err),
        Ok(rebuilt) => if block_bytes(rebuilt) == block_bytes(b) {
            Ok(())
        } else {
            Err(InvalidDynamicSigmaBftBlock::PayloadBlockMismatch)
        },
    }
}

fn block_of_payload(p: &DynamicSigmaBftBlockPayload) -> (r: &BftBlock)
    ensures
        r@ == p.block@,
{
    &p.block
}

impl DynamicSigmaBftBlockPayload {
    /// Construct a payload from proposal-carried evidence and block fields.
    pub fn try_from_with_evidence(
        dynamic_sigma_params: DynamicSigmaParameters,
        dynamic_sigma_evidence: DynamicSigmaProposalEvidence,
        height: u32,
        previous_block_fat_ptr: FatPointerToBftBlock2,
        finalization_candidate_height: u32,
        headers: Vec<BcBlockHeader>,
    ) -> (r: Result<DynamicSigmaBftBlockPayload, InvalidDynamicSigmaBftBlock>)
        requires
            evidence_fits(dynamic_sigma_params, dynamic_sigma_evidence),
        ensures
            match spec_try_from_with_evidence(
                dynamic_sigma_params,
                dynamic_sigma_evidence,
                height,
                previous_block_fat_ptr@,
                finalization_candidate_height,
                header_views(headers@),
            ) {
                Ok(b) => r matches Ok(p) && p.block@ == b && p.evidence == dynamic_sigma_evidence,
                Err(e) => r == Err::<DynamicSigmaBftBlockPayload, InvalidDynamicSigmaBftBlock>(e),
            },
    {
        let block = match BftBlock::try_from_with_dynamic_sigma_evidence(
            dynamic_sigma_params,
            dynamic_sigma_evidence,
            height,
            previous_block_fat_ptr,
            finalization_candidate_height,
            headers,
        ) {
            Err(e) => {
                return Err(e);
            },
            Ok(b) => b,
        };
        Ok(DynamicSigmaBftBlockPayload { evidence: dynamic_sigma_evidence, block })
    }

    /// Validate that this payload's evidence permits exactly the carried block.
    pub fn validate(&self, dynamic_sigma_params: DynamicSigmaParameters) -> (r: Result<
        (),
        InvalidDynamicSigmaBftBlock,
    >)
        requires
            evidence_fits(dynamic_sigma_params, self.evidence),
            block_writable(self.block@),
        ensures
            r == spec_validate_payload(dynamic_sigma_params, self.evidence, self.block@),
    {
        let rebuilt = match BftBlock::try_from_with_dynamic_sigma_evidence(
            dynamic_sigma_params,
            self.evidence,
            self.block.height,
            self.block.previous_block_fat_ptr.duplicate(),
            self.block.finalization_candidate_height,
            duplicate_headers(&self.block.headers),
        ) {
            Err(e) => {
                return Err(e);
            },
            Ok(b) => b,
        };
        let expected_bytes = rebuilt.zcash_serialize_to_vec();
        let actual_bytes = self.block.zcash_serialize_to_vec();
        if !bytes_equal(expected_bytes.as_slice(), actual_bytes.as_slice()) {
            return Err(InvalidDynamicSigmaBftBlock::PayloadBlockMismatch);
        }
        Ok(())
    }

    /// The byte layout of this payload; see [dynamic_payload_bytes].
    pub fn zcash_serialize_to_vec(&self) -> (r: Vec<u8>)
        requires
            block_writable(self.block@),
        ensures
            r@ == dynamic_payload_bytes(self.evidence, self.block@),
    {
        let mut out: Vec<u8> = Vec::new();
        let magic = dynamic_sigma_magic();
        append_bytes(&mut out, &magic);
        write_evidence(&mut out, &self.evidence);
        self.block.write_to(&mut out);
        out
    }

    /// Decode a dynamic-sigma payload from the front of `bytes`.
    pub fn zcash_deserialize(bytes: &[u8]) -> (r: Result<
        DynamicSigmaBftBlockPayload,
        SerializationError,
    >)
        ensures
            match decode_dynamic_payload_spec(bytes@) {
                Err(e) => r == Err::<DynamicSigmaBftBlockPayload, SerializationError>(e),
                Ok((e, b)) => r matches Ok(p) && p.evidence == e && p.block@ == b,
            },
    {
        let len = bytes.len();
        if len < 8 {
            return Err(SerializationError::UnexpectedEnd);
        }
        let magic = dynamic_sigma_magic();
        if !bytes_equal(slice_subrange(bytes, 0, 8), &magic) {
            return Err(SerializationError::InvalidDynamicSigmaMagic);
        }
        if len < 131 {
            return Err(SerializationError::UnexpectedEnd);
        }
        let evidence = read_evidence(bytes, 8);
        match BftBlock::decode_at(bytes, 131) {
            Err(e) => Err(e),
            Ok((block, _)) => Ok(DynamicSigmaBftBlockPayload { evidence, block }),
        }
    }
}

impl BftBlockPayload {
    /// Decode a Tenderlink payload: bytes starting with the dynamic-sigma magic
    /// as a dynamic-sigma payload, all other bytes as a legacy block.
    pub fn zcash_deserialize_from_slice(bytes: &[u8]) -> (r: Result<
        BftBlockPayload,
        SerializationError,
    >)
        ensures
            match decode_payload_spec(bytes@) {
                Err(e) => r == Err::<BftBlockPayload, SerializationError>(e),
                Ok(p) => r matches Ok(payload) && payload@ == p,
            },
    {
        let magic = dynamic_sigma_magic();
        if bytes.len() >= 8 && bytes_equal(slice_subrange(bytes, 0, 8), &magic) {
            match DynamicSigmaBftBlockPayload::zcash_deserialize(bytes) {
                Err(e) => Err(e),
                Ok(p) => Ok(BftBlockPayload::DynamicSigma(p)),
            }
        } else {
            match BftBlock::zcash_deserialize(bytes) {
                Err(e) => Err(e),
                Ok(b) => Ok(BftBlockPayload::FixedSigma(b)),
            }
        }
    }

    /// The carried BFT block, whichever the payload variant.
    pub fn block(&self) -> (r: &BftBlock)
        ensures
            r@ == match self@ {
                PayloadView::FixedSigma(b) => b,
                PayloadView::DynamicSigma(_, b) => b,
            },
    {
        match self {
            BftBlockPayload::FixedSigma(block) => block,
            BftBlockPayload::DynamicSigma(payload) => block_of_payload(payload),
        }
    }
}

/// Reading back the layout of a dynamic-sigma payload with a well-formed
/// block gives the evidence and the block, as a dynamic-sigma payload.
pub proof fn lemma_dynamic_payload_roundtrip(e: DynamicSigmaProposalEvidence, b: BftBlockView)
    requires
        block_wf(b),
    ensures
        decode_payload_spec(dynamic_payload_bytes(e, b)) == Ok::<PayloadView, SerializationError>(
            PayloadView::DynamicSigma(e, b),
        ),
{
    let bb = block_bytes(b);
    let s = dynamic_payload_bytes(e, b);
    lemma_evidence_roundtrip(e, bb);
    lemma_block_roundtrip(b, Seq::empty());
    assert(bb + Seq::<u8>::empty() == bb);
    assert(s.subrange(0, 8) == magic_bytes());
    assert(s.subrange(8, s.len() as int) == evidence_bytes(e) + bb);
    assert(s.subrange(131, s.len() as int) == bb);
}

/// Validation accepts exactly a version-1 block whose header count is the
/// sigma selected by valid evidence: the evidence permits no other block.
pub proof fn lemma_validate_accepts_exactly_permitted_block(
    params: DynamicSigmaParameters,
    e: DynamicSigmaProposalEvidence,
    b: BftBlockView,
)
    ensures
        spec_validate_payload(params, e, b) is Ok <==> (spec_validate_evidence(params, e) is Ok
            && b.headers.len() == e.selected_sigma && b.version == 1),
{
    lemma_auto_spec_u32_to_from_le_bytes();
    if spec_validate_evidence(params, e) is Ok && b.headers.len() == e.selected_sigma {
        let rebuilt = constructed_block(
            b.height,
            b.previous_block_fat_ptr,
            b.finalization_candidate_height,
            b.headers,
        );
        if b.version != 1 {
            let x = block_bytes(rebuilt);
            let y = block_bytes(b);
            assert(x.subrange(0, 4) == spec_u32_to_le_bytes(1u32));
            assert(y.subrange(0, 4) == spec_u32_to_le_bytes(b.version));
            assert(x != y);
        } else {
            assert(rebuilt == b);
        }
    }
}

/// Every dynamic-sigma payload built from evidence validates against the
/// same parameters.
pub proof fn lemma_built_payload_validates(
    params: DynamicSigmaParameters,
    e: DynamicSigmaProposalEvidence,
    height: u32,
    previous_block_fat_ptr: FatPointerView,
    finalization_candidate_height: u32,
    headers: Seq<HeaderView>,
)
    requires
        spec_try_from_with_evidence(
            params,
            e,
            height,
            previous_block_fat_ptr,
            finalization_candidate_height,
            headers,
        ) is Ok,
    ensures
        spec_validate_payload(
            params,
            e,
            spec_try_from_with_evidence(
                params,
                e,
                height,
                previous_block_fat_ptr,
                finalization_candidate_height,
                headers,
            )->Ok_0,
        ) == Ok::<(), InvalidDynamicSigmaBftBlock>(()),
{
    let b = spec_try_from_with_evidence(
        params,
        e,
        height,
        previous_block_fat_ptr,
        finalization_candidate_height,
        headers,
    )->Ok_0;
    lemma_validate_accepts_exactly_permitted_block(params, e, b);
}

/// The kind of a decoded Tenderlink payload follows its first bytes: a
/// dynamic-sigma payload only from bytes starting with the magic prefix, a
/// legacy block only from bytes that do not.
pub proof fn lemma_payload_kind_follows_magic(s: Seq<u8>)
    ensures
        decode_payload_spec(s) matches Ok(PayloadView::DynamicSigma(_, _)) ==> starts_with_magic(s),
        decode_payload_spec(s) matches Ok(PayloadView::FixedSigma(_)) ==> !starts_with_magic(s),
{
}

/// Reading back the layout of a well-formed legacy block whose bytes do not
/// start with the dynamic-sigma magic gives the block, as a fixed-sigma payload.
pub proof fn lemma_fixed_payload_roundtrip(b: BftBlockView)
    requires
        block_wf(b),
        !starts_with_magic(block_bytes(b)),
    ensures
        decode_payload_spec(block_bytes(b)) == Ok::<PayloadView, SerializationError>(
            PayloadView::FixedSigma(b),
        ),
{
    lemma_block_roundtrip(b, Seq::empty());
    assert(block_bytes(b) + Seq::<u8>::empty() == block_bytes(b));
}

/// A BFT block and the fat pointer that shows it has been signed.
#[derive(Clone, Debug)]
pub struct BftBlockAndFatPointerToIt {
    /// A BFT block.
    pub block: BftBlock,
    /// The fat pointer to the block, showing it has been signed.
    pub fat_ptr: FatPointerToBftBlock2,
}

impl BftBlockAndFatPointerToIt {
    /// The byte layout: the block, then the fat pointer.
    pub fn zcash_serialize_to_vec(&self) -> (r: Vec<u8>)
        requires
            block_writable(self.block@),
        ensures
            r@ == block_bytes(self.block@) + fat_pointer_bytes(self.fat_ptr@),
    {
        let mut out = self.block.zcash_serialize_to_vec();
        let fp = self.fat_ptr.to_bytes();
        append_bytes(&mut out, fp.as_slice());
        out
    }

    /// Decode a block followed by its fat pointer from the front of `bytes`.
    pub fn zcash_deserialize(bytes: &[u8]) -> (r: Result<BftBlockAndFatPointerToIt, SerializationError>)
        ensures
            match decode_block_spec(bytes@) {
                Err(e) => r == Err::<BftBlockAndFatPointerToIt, SerializationError>(e),
                Ok((b, n)) => match decode_fat_pointer_spec(bytes@.subrange(n, bytes@.len() as int)) {
                    None => r == Err::<BftBlockAndFatPointerToIt, SerializationError>(
                        SerializationError::UnexpectedEnd,
                    ),
                    Some((f, _)) => r matches Ok(x) && x.block@ == b && x.fat_ptr@ == f,
                },
            },
    {
        proof {
            assert(bytes@.subrange(0, bytes@.len() as int) == bytes@);
        }
        match BftBlock::decode_at(bytes, 0) {
            Err(e) => Err(e),
            Ok((block, at)) => match FatPointerToBftBlock2::decode_at(bytes, at) {
                None => Err(SerializationError::UnexpectedEnd),
                Some((fat_ptr, _)) => Ok(BftBlockAndFatPointerToIt { block, fat_ptr }),
            },
        }
    }
}

} // verus!
