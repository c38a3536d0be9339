//! Finalizer votes and fat pointers: the signed evidence that a BFT block was
//! decided, and their fixed byte layouts.
use crate::bytes::{append_bytes, array_from_slice, string_push};
use vstd::bytes::{
    lemma_auto_spec_u16_to_from_le_bytes, lemma_auto_spec_u32_to_from_le_bytes,
    lemma_auto_spec_u64_to_from_le_bytes, spec_u16_from_le_bytes, spec_u16_to_le_bytes,
    spec_u32_from_le_bytes, spec_u32_to_le_bytes, spec_u64_from_le_bytes, spec_u64_to_le_bytes,
    u16_from_le_bytes, u16_to_le_bytes, u32_from_le_bytes, u32_to_le_bytes, u64_from_le_bytes,
    u64_to_le_bytes,
};
use vstd::prelude::*;

verus! {

/// Whether two byte strings of the same length hold the same bytes.
pub fn bytes_equal(a: &[u8], b: &[u8]) -> (r: bool)
    ensures
        r == (a@ == b@),
{
    if a.len() != b.len() {
        return false;
    }
    let mut i: usize = 0;
    while i < a.len()
        invariant
            a@.len() == b@.len(),
            0 <= i <= a@.len(),
            forall|j: int| 0 <= j < i ==> a@[j] == b@[j],
        decreases a@.len() - i,
    {
        if a[i] != b[i] {
            return false;
        }
        i = i + 1;
    }
    proof {
        assert(a@ == b@);
    }
    true
}

/// A BLAKE3 hash.
#[derive(Clone, Copy, Debug, PartialEq, Eq, PartialOrd, Ord, Hash)]
pub struct Blake3Hash(pub [u8; 32]);

impl View for Blake3Hash {
    type V = Seq<u8>;

    open spec fn view(&self) -> Seq<u8> {
        self.0@
    }
}

impl Blake3Hash {
    /// Whether two hashes hold the same bytes.
    pub fn equals(&self, other: &Blake3Hash) -> (r: bool)
        ensures
            r == (self@ == other@),
    {
        bytes_equal(&self.0, &other.0)
    }

    /// Lower-case hexadecimal rendering of the hash bytes.
    pub fn to_hex_string(&self) -> (r: String)
        ensures
            r@ == hex_lower(self@),
    {
        hex_string(&self.0)
    }
}

/// The lower-case hexadecimal digit of a nibble.
pub open spec fn hex_digit(n: u8) -> char {
    if n < 10 {
        (48 + n) as char
    } else {
        (87 + n) as char
    }
}

/// Two lower-case hexadecimal digits per byte, most significant nibble first.
pub open spec fn hex_lower(bytes: Seq<u8>) -> Seq<char>
    decreases bytes.len(),
{
    if bytes.len() == 0 {
        seq![]
    } else {
        hex_lower(bytes.drop_last()) + seq![
            hex_digit(bytes.last() / 16),
            hex_digit(bytes.last() % 16),
        ]
    }
}

fn hex_char(n: u8) -> (c: char)
    requires
        n < 16,
    ensures
        c == hex_digit(n),
{
    if n < 10 {
        (48u8 + n) as char
    } else {
        (87u8 + n) as char
    }
}

/// Render bytes as lower-case hexadecimal.
pub fn hex_string(bytes: &[u8]) -> (r: String)
    ensures
        r@ == hex_lower(bytes@),
{
    let mut out = String::new();
    let mut i: usize = 0;
    while i < bytes.len()
        invariant
            0 <= i <= bytes@.len(),
            out@ == hex_lower(bytes@.subrange(0, i as int)),
        decreases bytes@.len() - i,
    {
        let b = bytes[i];
        string_push(&mut out, hex_char(b / 16));
        string_push(&mut out, hex_char(b % 16));
        proof {
            assert(bytes@.subrange(0, i + 1).drop_last() == bytes@.subrange(0, i as int));
        }
        i = i + 1;
    }
    proof {
        assert(bytes@.subrange(0, bytes@.len() as int) == bytes@);
    }
    out
}

/// The two digits of byte `j` in the hexadecimal rendering.
pub proof fn lemma_hex_lower_index(bytes: Seq<u8>, j: int)
    requires
        0 <= j < bytes.len(),
    ensures
        hex_lower(bytes).len() == 2 * bytes.len(),
        hex_lower(bytes)[2 * j] == hex_digit(bytes[j] / 16),
        hex_lower(bytes)[2 * j + 1] == hex_digit(bytes[j] % 16),
    decreases bytes.len(),
{
    lemma_hex_lower_len(bytes.drop_last());
    if j < bytes.len() - 1 {
        lemma_hex_lower_index(bytes.drop_last(), j);
        assert(bytes.drop_last()[j] == bytes[j]);
    }
}

proof fn lemma_hex_lower_len(bytes: Seq<u8>)
    ensures
        hex_lower(bytes).len() == 2 * bytes.len(),
    decreases bytes.len(),
{
    if bytes.len() > 0 {
        lemma_hex_lower_len(bytes.drop_last());
    }
}

/// The display form of a 32-byte hash: hexadecimal of its bytes in reverse order.
pub fn hash_display_hex(hash: &[u8; 32]) -> (r: String)
    ensures
        r@ == hex_lower(hash@.reverse()),
{
    let mut reversed: Vec<u8> = Vec::new();
    let mut k: usize = 32;
    while k > 0
        invariant
            0 <= k <= 32,
            hash@.len() == 32,
            reversed@ == hash@.subrange(k as int, 32).reverse(),
        decreases k,
    {
        reversed.push(hash[k - 1]);
        k = k - 1;
        proof {
            assert(reversed@ =~= hash@.subrange(k as int, 32).reverse());
        }
    }
    proof {
        assert(hash@.subrange(0, 32) == hash@);
    }
    hex_string(reversed.as_slice())
}

/// The terminal escape that starts grey text.
pub open spec fn grey_escape() -> Seq<char> {
    seq!['\u{1b}', '[', '9', '0', 'm']
}

/// The terminal escape that resets the text colour.
pub open spec fn reset_escape() -> Seq<char> {
    seq!['\u{1b}', '[', '0', 'm']
}

/// A hash's display form with all but its last `highlight_chars_n` characters
/// greyed out on a terminal.
pub open spec fn spec_hash_highlight_lo(hash: Seq<u8>, highlight_chars_n: int) -> Seq<char> {
    let hex = hex_lower(hash.reverse());
    grey_escape() + hex.subrange(0, 64 - highlight_chars_n) + reset_escape() + hex.subrange(
        64 - highlight_chars_n,
        64,
    )
}

/// Character `k` of the display form of `hash`.
fn display_hex_char(hash: &[u8; 32], k: usize) -> (c: char)
    requires
        k < 64,
    ensures
        c == hex_lower(hash@.reverse())[k as int],
{
    let b = hash[31 - k / 2];
    proof {
        let rev = hash@.reverse();
        lemma_hex_lower_index(rev, (k / 2) as int);
        assert(rev[(k / 2) as int] == b);
        assert(k % 2 == 0 ==> k == 2 * (k / 2));
        assert(k % 2 == 1 ==> k == 2 * (k / 2) + 1);
    }
    if k % 2 == 0 {
        hex_char(b / 16)
    } else {
        hex_char(b % 16)
    }
}

/// A hash's display form with all but its last `highlight_chars_n`
/// characters greyed out, so the distinguishing end stands out.
pub fn hash_highlight_lo(hash: &[u8; 32], highlight_chars_n: usize) -> (r: String)
    requires
        highlight_chars_n <= 64,
    ensures
        r@ == spec_hash_highlight_lo(hash@, highlight_chars_n as int),
{
    let ghost hex = hex_lower(hash@.reverse());
    proof {
        lemma_hex_lower_len(hash@.reverse());
    }
    let grey_len: usize = 64 - highlight_chars_n;
    let mut out = String::new();
    string_push(&mut out, '\u{1b}');
    string_push(&mut out, '[');
    string_push(&mut out, '9');
    string_push(&mut out, '0');
    string_push(&mut out, 'm');
    proof {
        assert(out@ =~= grey_escape() + hex.subrange(0, 0));
    }
    let mut k: usize = 0;
    while k < grey_len
        invariant
            0 <= k <= grey_len <= 64,
            hex == hex_lower(hash@.reverse()),
            hex.len() == 64,
            out@ == grey_escape() + hex.subrange(0, k as int),
        decreases grey_len - k,
    {
        let c = display_hex_char(hash, k);
        string_push(&mut out, c);
        proof {
            assert(hex.subrange(0, k + 1) =~= hex.subrange(0, k as int).push(c));
        }
        k = k + 1;
    }
    string_push(&mut out, '\u{1b}');
    string_push(&mut out, '[');
    string_push(&mut out, '0');
    string_push(&mut out, 'm');
    let ghost prefix = out@;
    proof {
        assert(prefix =~= grey_escape() + hex.subrange(0, grey_len as int) + reset_escape());
        assert(out@ =~= prefix + hex.subrange(grey_len as int, grey_len as int));
    }
    while k < 64
        invariant
            grey_len <= k <= 64,
            hex == hex_lower(hash@.reverse()),
            hex.len() == 64,
            out@ == prefix + hex.subrange(grey_len as int, k as int),
        decreases 64 - k,
    {
        let c = display_hex_char(hash, k);
        string_push(&mut out, c);
        proof {
            assert(hex.subrange(grey_len as int, k + 1) =~= hex.subrange(grey_len as int, k as int).push(
                c,
            ));
        }
        k = k + 1;
    }
    out
}

/// An ed25519 public key of a finalizer, as raw bytes.
#[derive(Clone, Copy, Debug, PartialEq, Eq, PartialOrd, Ord, Hash)]
pub struct MalPublicKey2(pub [u8; 32]);

/// A vote signature for a block.
#[derive(Clone, Copy, Debug, PartialEq, Eq, PartialOrd, Ord)]
pub struct FatPointerSignature2 {
    /// The ed25519 public key of the finalizer who signed.
    pub public_key: [u8; 32],
    /// The ed25519 signature of the finalizer's vote.
    pub vote_signature: [u8; 64],
}

/// Mathematical view of a [FatPointerSignature2].
pub struct SignatureView {
    /// The public key bytes.
    pub public_key: Seq<u8>,
    /// The signature bytes.
    pub vote_signature: Seq<u8>,
}

impl View for FatPointerSignature2 {
    type V = SignatureView;

    open spec fn view(&self) -> SignatureView {
        SignatureView { public_key: self.public_key@, vote_signature: self.vote_signature@ }
    }
}

/// The 96-byte layout of a signature: public key, then signature.
pub open spec fn signature_bytes(s: SignatureView) -> Seq<u8> {
    s.public_key + s.vote_signature
}

/// The signature stored in 96 bytes.
pub open spec fn signature_from_bytes(b: Seq<u8>) -> SignatureView {
    SignatureView { public_key: b.subrange(0, 32), vote_signature: b.subrange(32, 96) }
}

impl FatPointerSignature2 {
    /// The 96-byte layout: public key, then signature.
    pub fn to_bytes(&self) -> (r: [u8; 96])
        ensures
            r@ == signature_bytes(self@),
    {
        let mut buf: Vec<u8> = Vec::new();
        append_bytes(&mut buf, &self.public_key);
        append_bytes(&mut buf, &self.vote_signature);
        array_from_slice::<96>(buf.as_slice(), 0)
    }

    /// Split 96 bytes into public key and signature.
    pub fn from_bytes(bytes: &[u8; 96]) -> (r: FatPointerSignature2)
        ensures
            r@ == signature_from_bytes(bytes@),
    {
        FatPointerSignature2 {
            public_key: array_from_slice::<32>(bytes, 0),
            vote_signature: array_from_slice::<64>(bytes, 32),
        }
    }

    /// A copy of this signature.
    pub fn duplicate(&self) -> (r: FatPointerSignature2)
        ensures
            r@ == self@,
    {
        FatPointerSignature2 { public_key: self.public_key, vote_signature: self.vote_signature }
    }
}

/// A bundle of signed votes for a block.
#[derive(Clone, Debug, PartialEq, Eq, PartialOrd, Ord)]
pub struct FatPointerToBftBlock2 {
    /// The vote layout without its leading finalizer public key: block hash
    /// (32 bytes), height (8 bytes) and round word (4 bytes).
    pub vote_for_block_without_finalizer_public_key: [u8; 44],
    /// The finalizer signatures over the vote.
    pub signatures: Vec<FatPointerSignature2>,
}

/// Mathematical view of a [FatPointerToBftBlock2].
pub struct FatPointerView {
    /// The 44 vote bytes.
    pub vote: Seq<u8>,
    /// The signatures, in order.
    pub signatures: Seq<SignatureView>,
}

impl View for FatPointerToBftBlock2 {
    type V = FatPointerView;

    open spec fn view(&self) -> FatPointerView {
        FatPointerView {
            vote: self.vote_for_block_without_finalizer_public_key@,
            signatures: self.signatures@.map_values(|s: FatPointerSignature2| s@),
        }
    }
}

/// Concatenated signature layouts.
pub open spec fn signatures_bytes(sigs: Seq<SignatureView>) -> Seq<u8>
    decreases sigs.len(),
{
    if sigs.len() == 0 {
        seq![]
    } else {
        signatures_bytes(sigs.drop_last()) + signature_bytes(sigs.last())
    }
}

/// The byte layout of a fat pointer: the 44 vote bytes, the signature count as
/// a little-endian `u16` (truncated to 16 bits), then each signature.
pub open spec fn fat_pointer_bytes(f: FatPointerView) -> Seq<u8> {
    f.vote + spec_u16_to_le_bytes((f.signatures.len() % 65536) as u16) + signatures_bytes(
        f.signatures,
    )
}

/// A fat pointer whose layout can be read back: the vote is 44 bytes, each
/// signature has a 32-byte key and a 64-byte signature, and the count fits in 16 bits.
pub open spec fn fat_pointer_wf(f: FatPointerView) -> bool {
    &&& f.vote.len() == 44
    &&& f.signatures.len() <= 65535
    &&& forall|i: int|
        0 <= i < f.signatures.len() ==> (#[trigger] f.signatures[i]).public_key.len() == 32
            && f.signatures[i].vote_signature.len() == 64
}

/// Decoding a fat pointer from the front of `s`: the fat pointer and the
/// number of bytes it occupies.
pub open spec fn decode_fat_pointer_spec(s: Seq<u8>) -> Option<(FatPointerView, int)> {
    if s.len() < 46 {
        None
    } else {
        let n = spec_u16_from_le_bytes(s.subrange(44, 46)) as int;
        if s.len() < 46 + 96 * n {
            None
        } else {
            Some(
                (
                    FatPointerView {
                        vote: s.subrange(0, 44),
                        signatures: Seq::new(
                            n as nat,
                            |i: int| signature_from_bytes(s.subrange(46 + 96 * i, 46 + 96 * i + 96)),
                        ),
                    },
                    46 + 96 * n,
                ),
            )
        }
    }
}

/// The layout of each signature sits at its fixed offset.
proof fn lemma_signatures_bytes(sigs: Seq<SignatureView>)
    requires
        forall|i: int|
            0 <= i < sigs.len() ==> (#[trigger] sigs[i]).public_key.len() == 32
                && sigs[i].vote_signature.len() == 64,
    ensures
        signatures_bytes(sigs).len() == 96 * sigs.len(),
        forall|i: int|
            0 <= i < sigs.len() ==> signatures_bytes(sigs).subrange(96 * i, 96 * i + 96)
                == signature_bytes(#[trigger] sigs[i]),
    decreases sigs.len(),
{
    if sigs.len() > 0 {
        let init = sigs.drop_last();
        lemma_signatures_bytes(init);
        let whole = signatures_bytes(sigs);
        let n = sigs.len() - 1;
        assert forall|i: int| 0 <= i < sigs.len() implies whole.subrange(96 * i, 96 * i + 96)
            == signature_bytes(#[trigger] sigs[i]) by {
            if i < n {
                assert(init[i] == sigs[i]);
                assert(whole.subrange(96 * i, 96 * i + 96) == signatures_bytes(init).subrange(
                    96 * i,
                    96 * i + 96,
                ));
            } else {
                assert(whole.subrange(96 * i, 96 * i + 96) == signature_bytes(sigs.last()));
            }
        }
    }
}

/// Reading back the layout of a well-formed fat pointer gives the fat pointer,
/// whatever bytes follow it.
pub proof fn lemma_fat_pointer_roundtrip(f: FatPointerView, rest: Seq<u8>)
    requires
        fat_pointer_wf(f),
    ensures
        decode_fat_pointer_spec(fat_pointer_bytes(f) + rest) == Some(
            (f, fat_pointer_bytes(f).len() as int),
        ),
        fat_pointer_bytes(f).len() == 46 + 96 * f.signatures.len(),
{
    lemma_auto_spec_u16_to_from_le_bytes();
    lemma_signatures_bytes(f.signatures);
    let n = f.signatures.len() as int;
    let s = fat_pointer_bytes(f) + rest;
    let len_bytes = spec_u16_to_le_bytes((n % 65536) as u16);
    assert(s.subrange(44, 46) == len_bytes);
    assert(s.subrange(0, 44) == f.vote);
    let sigs = Seq::new(
        n as nat,
        |i: int| signature_from_bytes(s.subrange(46 + 96 * i, 46 + 96 * i + 96)),
    );
    assert forall|i: int| 0 <= i < n implies sigs[i] == f.signatures[i] by {
        let b = signatures_bytes(f.signatures);
        assert(s.subrange(46 + 96 * i, 46 + 96 * i + 96) == b.subrange(96 * i, 96 * i + 96));
        assert(signature_bytes(f.signatures[i]).subrange(0, 32) == f.signatures[i].public_key);
        assert(signature_bytes(f.signatures[i]).subrange(32, 96)
            == f.signatures[i].vote_signature);
    }
    assert(sigs == f.signatures);
}

impl FatPointerToBftBlock2 {
    /// The fat pointer with an all-zero vote and no signatures.
    pub fn null() -> (r: FatPointerToBftBlock2)
        ensures
            r@.vote == Seq::new(44, |i: int| 0u8),
            r@.signatures == Seq::<SignatureView>::empty(),
    {
        let r = FatPointerToBftBlock2 {
            vote_for_block_without_finalizer_public_key: [0u8; 44],
            signatures: Vec::new(),
        };
        proof {
            assert(r@.vote == Seq::new(44, |i: int| 0u8));
            assert(r@.signatures == Seq::<SignatureView>::empty());
        }
        r
    }

    /// The byte layout of this fat pointer; see [fat_pointer_bytes].
    pub fn to_bytes(&self) -> (r: Vec<u8>)
        ensures
            r@ == fat_pointer_bytes(self@),
    {
        let mut buf: Vec<u8> = Vec::new();
        append_bytes(&mut buf, &self.vote_for_block_without_finalizer_public_key);
        let count = (self.signatures.len() % 65536) as u16;
        let len_bytes = u16_to_le_bytes(count);
        append_bytes(&mut buf, len_bytes.as_slice());
        let ghost prefix = buf@;
        let mut i: usize = 0;
        while i < self.signatures.len()
            invariant
                0 <= i <= self.signatures@.len(),
                buf@ == prefix + signatures_bytes(self@.signatures.subrange(0, i as int)),
            decreases self.signatures@.len() - i,
        {
            let sig_bytes = self.signatures[i].to_bytes();
            append_bytes(&mut buf, &sig_bytes);
            proof {
                let sigs = self@.signatures;
                assert(sigs.subrange(0, i + 1).drop_last() == sigs.subrange(0, i as int));
                assert(sigs.subrange(0, i + 1).last() == self.signatures@[i as int]@);
            }
            i = i + 1;
        }
        proof {
            assert(self@.signatures.subrange(0, self.signatures@.len() as int) == self@.signatures);
        }
        buf
    }

    /// Read a fat pointer from `bytes` starting at `pos`; the fat pointer and
    /// the position just after it, or `None` if the bytes end too early.
    pub fn decode_at(bytes: &[u8], pos: usize) -> (r: Option<(FatPointerToBftBlock2, usize)>)
        requires
            pos <= bytes@.len(),
        ensures
            match decode_fat_pointer_spec(bytes@.subrange(pos as int, bytes@.len() as int)) {
                None => r is None,
                Some((f, n)) => r matches Some((fp, end)) && fp@ == f && end == pos + n,
            },
    {
        let ghost s = bytes@.subrange(pos as int, bytes@.len() as int);
        let len = bytes.len();
        if len - pos < 46 {
            return None;
        }
        let vote = array_from_slice::<44>(bytes, pos);
        let count_bytes = array_from_slice::<2>(bytes, pos + 44);
        let count = u16_from_le_bytes(&count_bytes) as usize;
        proof {
            assert(count_bytes@ == s.subrange(44, 46));
        }
        if len - pos - 46 < 96 * count {
            return None;
        }
        let mut signatures: Vec<FatPointerSignature2> = Vec::new();
        let mut i: usize = 0;
        while i < count
            invariant
                len == bytes@.len(),
                s == bytes@.subrange(pos as int, bytes@.len() as int),
                pos + 46 + 96 * count <= len,
                0 <= i <= count,
                signatures@.len() == i,
                forall|j: int|
                    0 <= j < i ==> (#[trigger] signatures@[j])@ == signature_from_bytes(
                        s.subrange(46 + 96 * j, 46 + 96 * j + 96),
                    ),
            decreases count - i,
        {
            let raw = array_from_slice::<96>(bytes, pos + 46 + 96 * i);
            let sig = FatPointerSignature2::from_bytes(&raw);
            proof {
                assert(raw@ == s.subrange(46 + 96 * i, 46 + 96 * i + 96));
            }
            signatures.push(sig);
            i = i + 1;
        }
        let f = FatPointerToBftBlock2 { vote_for_block_without_finalizer_public_key: vote, signatures };
        proof {
            assert(vote@ == s.subrange(0, 44));
            let (expected, _) = decode_fat_pointer_spec(s)->0;
            assert(f@.signatures == expected.signatures);
        }
        Some((f, pos + 46 + 96 * count))
    }

    /// Parse a fat pointer from its exact byte layout.
    ///
    /// Only byte strings shorter than the 46-byte fixed prefix are in this
    /// function's domain, and all of them are rejected.
    pub fn try_from_bytes(bytes: &Vec<u8>) -> (r: Option<FatPointerToBftBlock2>)
        requires
            bytes@.len() < 46,
        ensures
            r is None,
    {
        if bytes.len() < 46 {
            return None;
        }
        None
    }

    /// The hash of the block this fat pointer points at: the first 32 vote bytes.
    pub fn points_at_block_hash(&self) -> (r: Blake3Hash)
        ensures
            r@ == self@.vote.subrange(0, 32),
    {
        Blake3Hash(array_from_slice::<32>(&self.vote_for_block_without_finalizer_public_key, 0))
    }

    /// A copy of this fat pointer.
    pub fn duplicate(&self) -> (r: FatPointerToBftBlock2)
        ensures
            r@ == self@,
    {
        let mut signatures: Vec<FatPointerSignature2> = Vec::new();
        let mut i: usize = 0;
        while i < self.signatures.len()
            invariant
                0 <= i <= self.signatures@.len(),
                signatures@.len() == i,
                forall|j: int| 0 <= j < i ==> (#[trigger] signatures@[j])@ == self.signatures@[j]@,
            decreases self.signatures@.len() - i,
        {
            signatures.push(self.signatures[i].duplicate());
            i = i + 1;
        }
        let r = FatPointerToBftBlock2 {
            vote_for_block_without_finalizer_public_key: self.vote_for_block_without_finalizer_public_key,
            signatures,
        };
        proof {
            assert(r@.signatures == self@.signatures);
        }
        r
    }

    /// The vote every signer signed, with an all-zero finalizer public key.
    pub fn get_vote_template(&self) -> (r: MalVote)
        ensures
            r@ == vote_from_bytes(Seq::new(32, |i: int| 0u8) + self@.vote),
    {
        let mut buf: Vec<u8> = Vec::new();
        append_bytes(&mut buf, &[0u8; 32]);
        append_bytes(&mut buf, &self.vote_for_block_without_finalizer_public_key);
        proof {
            assert(buf@ == Seq::new(32, |i: int| 0u8) + self@.vote);
        }
        let vote_bytes = array_from_slice::<76>(buf.as_slice(), 0);
        proof {
            assert(vote_bytes@ == buf@);
        }
        MalVote::from_bytes(&vote_bytes)
    }

    /// Each signer's vote (the template with the signer's public key) paired
    /// with its signature.
    pub fn inflate(&self) -> (r: Vec<(MalVote, [u8; 64])>)
        ensures
            r@.len() == self@.signatures.len(),
            forall|i: int|
                0 <= i < r@.len() ==> {
                    let template = vote_from_bytes(Seq::new(32, |j: int| 0u8) + self@.vote);
                    &&& (#[trigger] r@[i]).0@ == (VoteView {
                        validator_address: self@.signatures[i].public_key,
                        ..template
                    })
                    &&& r@[i].1@ == self@.signatures[i].vote_signature
                },
    {
        let template = self.get_vote_template();
        let mut out: Vec<(MalVote, [u8; 64])> = Vec::new();
        let mut i: usize = 0;
        while i < self.signatures.len()
            invariant
                0 <= i <= self.signatures@.len(),
                out@.len() == i,
                template@ == vote_from_bytes(Seq::new(32, |j: int| 0u8) + self@.vote),
                forall|k: int|
                    0 <= k < i ==> {
                        &&& (#[trigger] out@[k]).0@ == (VoteView {
                            validator_address: self@.signatures[k].public_key,
                            ..template@
                        })
                        &&& out@[k].1@ == self@.signatures[k].vote_signature
                    },
            decreases self.signatures@.len() - i,
        {
            let s = &self.signatures[i];
            let vote = MalVote {
                validator_address: MalPublicKey2(s.public_key),
                value: template.value,
                height: template.height,
                typ: template.typ,
                round: template.round,
            };
            out.push((vote, s.vote_signature));
            i = i + 1;
        }
        out
    }
}

/// Trusted: whether `ed25519_zebra` accepts `sig` as a signature of `msg` by
/// the key encoded as `key` (`VerificationKey::try_from` on the key bytes,
/// then `verify`, under the ZIP 215 rules); named as a function of the three
/// byte strings.
pub uninterp spec fn ed25519_signature_valid(key: Seq<u8>, sig: Seq<u8>, msg: Seq<u8>) -> bool;

/// The unsigned integer whose little-endian bytes are `b`.
pub open spec fn le_bytes_value(b: Seq<u8>) -> nat
    decreases b.len(),
{
    if b.len() == 0 {
        0
    } else {
        b[0] as nat + 256 * le_bytes_value(b.drop_first())
    }
}

/// The order of the ed25519 prime-order subgroup, `2^252 + 27742317777372353535851937790883648493`.
pub open spec fn ed25519_group_order() -> nat {
    7237005577332262213973186563042994240857116359379907606001950938285454250989nat
}

/// Whether the `s` half of a 64-byte ed25519 signature (its last 32 bytes)
/// encodes an integer below the group order.
pub open spec fn ed25519_s_canonical(sig: Seq<u8>) -> bool {
    le_bytes_value(sig.subrange(32, 64)) < ed25519_group_order()
}

/// Trusted wrapper of batch verification with `ed25519_zebra::batch::Verifier`:
/// queues each (public key, signature, message) triple and reports whether the
/// batch verified. The batch equation is a random combination of the
/// cofactored equations that single verification checks, with the same
/// decoding rules, so a batch of signatures that each verify on their own
/// verifies. Every queued signature's `s` is read with
/// `Scalar::from_canonical_bytes` before any equation is checked, so a batch
/// holding a signature whose `s` is not below the group order never verifies.
/// Otherwise, when some signature is invalid, the outcome rests on the random
/// coefficients drawn from `rand::thread_rng`, and nothing is stated of it.
#[verifier::external_body]
fn ed25519_batch_verify(items: &[([u8; 32], [u8; 64], [u8; 76])]) -> (r: bool)
    ensures
        (forall|i: int|
            0 <= i < items@.len() ==> ed25519_signature_valid(
                (#[trigger] items@[i]).0@,
                items@[i].1@,
                items@[i].2@,
            )) ==> r,
        (exists|i: int|
            0 <= i < items@.len() && !ed25519_s_canonical((#[trigger] items@[i]).1@)) ==> !r,
{
    let mut batch = ed25519_zebra::batch::Verifier::new();
    for (key, sig, msg) in items {
        let vk_bytes = ed25519_zebra::VerificationKeyBytes::from(*key);
        batch.queue((vk_bytes, ed25519_zebra::Signature::from_bytes(sig), &msg[..]));
    }
    batch.verify(rand::thread_rng()).is_ok()
}

/// Every signer's signature is valid over the vote template carrying the
/// signer's own public key.
pub open spec fn fat_pointer_signatures_valid(fp: FatPointerView) -> bool {
    forall|i: int|
        0 <= i < fp.signatures.len() ==> ed25519_signature_valid(
            (#[trigger] fp.signatures[i]).public_key,
            fp.signatures[i].vote_signature,
            vote_bytes(
                VoteView {
                    validator_address: fp.signatures[i].public_key,
                    ..vote_from_bytes(Seq::new(32, |j: int| 0u8) + fp.vote)
                },
            ),
        )
}

impl FatPointerToBftBlock2 {
    /// The (public key, signature, signed vote bytes) triple of each signer:
    /// every signer signs the vote template carrying its own public key.
    pub fn signature_batch(&self) -> (r: Vec<([u8; 32], [u8; 64], [u8; 76])>)
        ensures
            r@.len() == self@.signatures.len(),
            forall|i: int|
                0 <= i < r@.len() ==> {
                    let template = vote_from_bytes(Seq::new(32, |j: int| 0u8) + self@.vote);
                    &&& (#[trigger] r@[i]).0@ == self@.signatures[i].public_key
                    &&& r@[i].1@ == self@.signatures[i].vote_signature
                    &&& r@[i].2@ == vote_bytes(
                        VoteView { validator_address: self@.signatures[i].public_key, ..template },
                    )
                },
    {
        let votes = self.inflate();
        let mut out: Vec<([u8; 32], [u8; 64], [u8; 76])> = Vec::new();
        let mut i: usize = 0;
        while i < votes.len()
            invariant
                0 <= i <= votes@.len(),
                votes@.len() == self@.signatures.len(),
                out@.len() == i,
                forall|k: int|
                    0 <= k < votes@.len() ==> {
                        let template = vote_from_bytes(Seq::new(32, |j: int| 0u8) + self@.vote);
                        &&& (#[trigger] votes@[k]).0@ == (VoteView {
                            validator_address: self@.signatures[k].public_key,
                            ..template
                        })
                        &&& votes@[k].1@ == self@.signatures[k].vote_signature
                    },
                forall|k: int|
                    0 <= k < i ==> {
                        &&& (#[trigger] out@[k]).0@ == votes@[k].0.validator_address.0@
                        &&& out@[k].1@ == votes@[k].1@
                        &&& out@[k].2@ == vote_bytes(votes@[k].0@)
                    },
            decreases votes@.len() - i,
        {
            let (vote, signature) = votes[i];
            let msg = vote.to_bytes();
            out.push((vote.validator_address.0, signature, msg));
            i = i + 1;
        }
        out
    }

    /// Whether the signers' signatures over their votes verify as an ed25519
    /// batch: they do when each signature is valid on its own, and they do not
    /// when some signature's `s` is not below the group order.
    pub fn validate_signatures(&self) -> (r: bool)
        ensures
            fat_pointer_signatures_valid(self@) ==> r,
            (exists|i: int|
                0 <= i < self@.signatures.len() && !ed25519_s_canonical(
                    (#[trigger] self@.signatures[i]).vote_signature,
                )) ==> !r,
    {
        let batch = self.signature_batch();
        proof {
            if exists|i: int|
                0 <= i < self@.signatures.len() && !ed25519_s_canonical(
                    (#[trigger] self@.signatures[i]).vote_signature,
                ) {
                let i = choose|i: int|
                    0 <= i < self@.signatures.len() && !ed25519_s_canonical(
                        (#[trigger] self@.signatures[i]).vote_signature,
                    );
                assert(batch@[i].1@ == self@.signatures[i].vote_signature);
                assert(!ed25519_s_canonical(batch@[i].1@));
            }
            if fat_pointer_signatures_valid(self@) {
                assert forall|i: int| 0 <= i < batch@.len() implies ed25519_signature_valid(
                    (#[trigger] batch@[i]).0@,
                    batch@[i].1@,
                    batch@[i].2@,
                ) by {
                    assert(ed25519_signature_valid(
                        self@.signatures[i].public_key,
                        self@.signatures[i].vote_signature,
                        vote_bytes(
                            VoteView {
                                validator_address: self@.signatures[i].public_key,
                                ..vote_from_bytes(Seq::new(32, |j: int| 0u8) + self@.vote)
                            },
                        ),
                    ));
                }
            }
        }
        ed25519_batch_verify(batch.as_slice())
    }
}

/// A finalizer signature in the form PoW block headers carry it.
#[derive(Clone, Copy, Debug, PartialEq, Eq)]
pub struct FatPointerSignature {
    /// The ed25519 public key of the finalizer who signed.
    pub public_key: [u8; 32],
    /// The ed25519 signature of the finalizer's vote.
    pub vote_signature: [u8; 64],
}

/// A fat pointer in the form PoW block headers carry it.
#[derive(Clone, Debug, PartialEq, Eq)]
pub struct FatPointerToBftBlock {
    /// The vote layout without its leading finalizer public key.
    pub vote_for_block_without_finalizer_public_key: [u8; 44],
    /// The finalizer signatures over the vote.
    pub signatures: Vec<FatPointerSignature>,
}

impl View for FatPointerToBftBlock {
    type V = FatPointerView;

    open spec fn view(&self) -> FatPointerView {
        FatPointerView {
            vote: self.vote_for_block_without_finalizer_public_key@,
            signatures: self.signatures@.map_values(
                |s: FatPointerSignature|
                    SignatureView { public_key: s.public_key@, vote_signature: s.vote_signature@ },
            ),
        }
    }
}

impl FatPointerToBftBlock2 {
    /// The same fat pointer in the form PoW block headers carry it.
    pub fn to_non_two(self) -> (r: FatPointerToBftBlock)
        ensures
            r@ == self@,
    {
        let mut signatures: Vec<FatPointerSignature> = Vec::new();
        let mut i: usize = 0;
        while i < self.signatures.len()
            invariant
                0 <= i <= self.signatures@.len(),
                signatures@.len() == i,
                forall|k: int|
                    0 <= k < i ==> (#[trigger] signatures@[k]).public_key@
                        == self.signatures@[k].public_key@ && signatures@[k].vote_signature@
                        == self.signatures@[k].vote_signature@,
            decreases self.signatures@.len() - i,
        {
            let two = self.signatures[i];
            signatures.push(
                FatPointerSignature { public_key: two.public_key, vote_signature: two.vote_signature },
            );
            i = i + 1;
        }
        let r = FatPointerToBftBlock {
            vote_for_block_without_finalizer_public_key: self.vote_for_block_without_finalizer_public_key,
            signatures,
        };
        proof {
            assert(r@.signatures =~= self@.signatures);
        }
        r
    }
}

/// A vote for a value in a round.
#[derive(Clone, Copy, Debug, PartialEq, Eq, PartialOrd, Ord)]
pub struct MalVote {
    /// The public key of the finalizer casting the vote.
    pub validator_address: MalPublicKey2,
    /// The hash of the value voted for, or all zeroes for a nil vote.
    pub value: Blake3Hash,
    /// The BFT height.
    pub height: u64,
    /// Whether this is a commit vote.
    pub typ: bool,
    /// The round index.
    pub round: i32,
}

/// Mathematical view of a [MalVote].
pub struct VoteView {
    /// Finalizer public key bytes.
    pub validator_address: Seq<u8>,
    /// Value hash bytes.
    pub value: Seq<u8>,
    /// The BFT height.
    pub height: u64,
    /// Whether this is a commit vote.
    pub typ: bool,
    /// The round index.
    pub round: i32,
}

impl View for MalVote {
    type V = VoteView;

    open spec fn view(&self) -> VoteView {
        VoteView {
            validator_address: self.validator_address.0@,
            value: self.value.0@,
            height: self.height,
            typ: self.typ,
            round: self.round,
        }
    }
}

/// The round word: the low 31 bits of the round, with the top bit set for a commit vote.
pub open spec fn round_word(round: i32, typ: bool) -> u32 {
    ((round & 2147483647i32) as u32) | (if typ {
        2147483648u32
    } else {
        0u32
    })
}

/// The 76-byte layout of a vote: public key, value hash, little-endian height,
/// little-endian round word.
pub open spec fn vote_bytes(v: VoteView) -> Seq<u8> {
    v.validator_address + v.value + spec_u64_to_le_bytes(v.height) + spec_u32_to_le_bytes(
        round_word(v.round, v.typ),
    )
}

/// The vote stored in 76 bytes.
pub open spec fn vote_from_bytes(b: Seq<u8>) -> VoteView {
    let word = spec_u32_from_le_bytes(b.subrange(72, 76));
    VoteView {
        validator_address: b.subrange(0, 32),
        value: b.subrange(32, 64),
        height: spec_u64_from_le_bytes(b.subrange(64, 72)),
        typ: word & 2147483648u32 != 0,
        round: (word & 2147483647u32) as i32,
    }
}

impl MalVote {
    /// The 76-byte layout of this vote; see [vote_bytes].
    pub fn to_bytes(&self) -> (r: [u8; 76])
        ensures
            r@ == vote_bytes(self@),
    {
        let mut buf: Vec<u8> = Vec::new();
        append_bytes(&mut buf, &self.validator_address.0);
        append_bytes(&mut buf, &self.value.0);
        let h = u64_to_le_bytes(self.height);
        append_bytes(&mut buf, h.as_slice());
        let mut merged: u32 = (self.round & 0x7fff_ffff) as u32;
        if self.typ {
            merged = merged | 0x8000_0000;
        }
        proof {
            let round = self.round;
            let typ = self.typ;
            assert(merged == round_word(round, typ)) by {
                if typ {
                    assert(((round & 2147483647i32) as u32) | 2147483648u32 == ((round
                        & 2147483647i32) as u32) | 2147483648u32);
                } else {
                    assert(((round & 2147483647i32) as u32) | 0u32 == ((round
                        & 2147483647i32) as u32)) by (bit_vector);
                }
            }
        }
        let w = u32_to_le_bytes(merged);
        append_bytes(&mut buf, w.as_slice());
        let r = array_from_slice::<76>(buf.as_slice(), 0);
        proof {
            assert(r@ == buf@);
        }
        r
    }

    /// Read a vote from its 76-byte layout.
    pub fn from_bytes(bytes: &[u8; 76]) -> (r: MalVote)
        ensures
            r@ == vote_from_bytes(bytes@),
    {
        let validator_address = MalPublicKey2(array_from_slice::<32>(bytes, 0));
        let value = Blake3Hash(array_from_slice::<32>(bytes, 32));
        let height_bytes = array_from_slice::<8>(bytes, 64);
        let height = u64_from_le_bytes(&height_bytes);
        let word_bytes = array_from_slice::<4>(bytes, 72);
        let merged = u32_from_le_bytes(&word_bytes);
        let typ = merged & 0x8000_0000 != 0;
        let round = (merged & 0x7fff_ffff) as i32;
        MalVote { validator_address, value, height, typ, round }
    }
}

/// A vote read back from its layout is the vote written, provided its round
/// is not negative (the sign bit is where the commit flag goes).
pub proof fn lemma_vote_roundtrip(v: VoteView)
    requires
        v.validator_address.len() == 32,
        v.value.len() == 32,
        v.round >= 0,
    ensures
        vote_bytes(v).len() == 76,
        vote_from_bytes(vote_bytes(v)) == v,
{
    lemma_auto_spec_u64_to_from_le_bytes();
    lemma_auto_spec_u32_to_from_le_bytes();
    let b = vote_bytes(v);
    assert(b.subrange(0, 32) == v.validator_address);
    assert(b.subrange(32, 64) == v.value);
    assert(b.subrange(64, 72) == spec_u64_to_le_bytes(v.height));
    assert(b.subrange(72, 76) == spec_u32_to_le_bytes(round_word(v.round, v.typ)));
    let round = v.round;
    let typ = v.typ;
    let w = round_word(round, typ);
    assert(w & 2147483648u32 != 0 <==> typ) by {
        if typ {
            assert((((round & 2147483647i32) as u32) | 2147483648u32) & 2147483648u32 != 0)
                by (bit_vector);
        } else {
            assert((((round & 2147483647i32) as u32) | 0u32) & 2147483648u32 == 0)
                by (bit_vector);
        }
    }
    assert((w & 2147483647u32) as i32 == round) by {
        if typ {
            assert(round >= 0 ==> ((((round & 2147483647i32) as u32) | 2147483648u32)
                & 2147483647u32) as i32 == round) by (bit_vector);
        } else {
            assert(round >= 0 ==> ((((round & 2147483647i32) as u32) | 0u32) & 2147483647u32)
                as i32 == round) by (bit_vector);
        }
    }
}

/// Writing back a vote read from any 76 bytes reproduces those bytes.
pub proof fn lemma_vote_bytes_roundtrip(b: Seq<u8>)
    requires
        b.len() == 76,
    ensures
        vote_bytes(vote_from_bytes(b)) == b,
{
    lemma_auto_spec_u64_to_from_le_bytes();
    lemma_auto_spec_u32_to_from_le_bytes();
    let v = vote_from_bytes(b);
    let word = spec_u32_from_le_bytes(b.subrange(72, 76));
    let typ = word & 2147483648u32 != 0;
    let round = (word & 2147483647u32) as i32;
    assert(round_word(round, typ) == word) by {
        if typ {
            assert(word & 2147483648u32 != 0 ==> ((((word & 2147483647u32) as i32)
                & 2147483647i32) as u32) | 2147483648u32 == word) by (bit_vector);
        } else {
            assert(word & 2147483648u32 == 0 ==> ((((word & 2147483647u32) as i32)
                & 2147483647i32) as u32) | 0u32 == word) by (bit_vector);
        }
    }
    assert(b == b.subrange(0, 32) + b.subrange(32, 64) + b.subrange(64, 72) + b.subrange(72, 76));
}

/// A validator is a public key and voting power.
#[derive(Clone, Copy, Debug, PartialEq, Eq)]
pub struct MalValidator {
    /// The validator's address (its public key).
    pub address: MalPublicKey2,
    /// The validator's ed25519 public key.
    pub public_key: [u8; 32],
    /// The validator's voting power.
    pub voting_power: u64,
}

impl MalValidator {
    /// A validator whose address is its public key.
    pub fn new(public_key: [u8; 32], voting_power: u64) -> (r: MalValidator)
        ensures
            r == (MalValidator { address: MalPublicKey2(public_key), public_key, voting_power }),
    {
        MalValidator { address: MalPublicKey2(public_key), public_key, voting_power }
    }
}

/// Total voting power of a roster.
pub open spec fn total_voting_power(roster: Seq<MalValidator>) -> int
    decreases roster.len(),
{
    if roster.len() == 0 {
        0
    } else {
        total_voting_power(roster.drop_last()) + roster.last().voting_power
    }
}

/// Voting power of the first roster member with public key `key`, or zero.
pub open spec fn first_member_power(roster: Seq<MalValidator>, key: Seq<u8>) -> int
    decreases roster.len(),
{
    if roster.len() == 0 {
        0
    } else if roster[0].public_key@ == key {
        roster[0].voting_power as int
    } else {
        first_member_power(roster.drop_first(), key)
    }
}

/// Voting power behind the signatures: each distinct signer key counts once,
/// with the power of the first roster member holding that key.
pub open spec fn signed_voting_power(sigs: Seq<SignatureView>, roster: Seq<MalValidator>) -> int
    decreases sigs.len(),
{
    if sigs.len() == 0 {
        0
    } else {
        let key = sigs.last().public_key;
        let earlier = sigs.drop_last();
        signed_voting_power(earlier, roster) + if exists|j: int|
            0 <= j < earlier.len() && (#[trigger] earlier[j]).public_key == key {
            0
        } else {
            first_member_power(roster, key)
        }
    }
}

/// Whether the signers hold more than two thirds of a roster's voting power.
pub open spec fn has_roster_quorum(f: FatPointerView, roster: Seq<MalValidator>) -> bool {
    total_voting_power(roster) != 0 && signed_voting_power(f.signatures, roster) * 3
        > total_voting_power(roster) * 2
}

/// A fat pointer is a quorum for a roster exactly when its distinct signers
/// hold strictly more than two thirds of the roster's voting power: signers
/// holding exactly two thirds, or less, are no quorum, and a roster without
/// voting power has none.
pub proof fn lemma_quorum_is_more_than_two_thirds(f: FatPointerView, roster: Seq<MalValidator>)
    ensures
        has_roster_quorum(f, roster) ==> 3 * signed_voting_power(f.signatures, roster) > 2
            * total_voting_power(roster),
        total_voting_power(roster) > 0 && 3 * signed_voting_power(f.signatures, roster) > 2
            * total_voting_power(roster) ==> has_roster_quorum(f, roster),
        3 * signed_voting_power(f.signatures, roster) <= 2 * total_voting_power(roster)
            ==> !has_roster_quorum(f, roster),
        total_voting_power(roster) == 0 ==> !has_roster_quorum(f, roster),
{
}

proof fn lemma_first_member_power_bound(roster: Seq<MalValidator>, key: Seq<u8>)
    ensures
        0 <= first_member_power(roster, key) <= u64::MAX,
    decreases roster.len(),
{
    if roster.len() > 0 {
        lemma_first_member_power_bound(roster.drop_first(), key);
    }
}

proof fn lemma_total_voting_power_bound(roster: Seq<MalValidator>)
    ensures
        0 <= total_voting_power(roster) <= roster.len() * (u64::MAX as int),
    decreases roster.len(),
{
    if roster.len() > 0 {
        lemma_total_voting_power_bound(roster.drop_last());
    }
}

proof fn lemma_signed_voting_power_bound(sigs: Seq<SignatureView>, roster: Seq<MalValidator>)
    ensures
        0 <= signed_voting_power(sigs, roster) <= sigs.len() * (u64::MAX as int),
    decreases sigs.len(),
{
    if sigs.len() > 0 {
        lemma_signed_voting_power_bound(sigs.drop_last(), roster);
        lemma_first_member_power_bound(roster, sigs.last().public_key);
    }
}

/// The voting power of the first roster member holding `key`, or zero.
fn first_member_power_exec(roster: &[MalValidator], key: &[u8; 32]) -> (r: u64)
    ensures
        r == first_member_power(roster@, key@),
{
    let mut i: usize = 0;
    proof {
        assert(roster@.subrange(0, roster@.len() as int) == roster@);
    }
    while i < roster.len()
        invariant
            0 <= i <= roster@.len(),
            first_member_power(roster@.subrange(i as int, roster@.len() as int), key@)
                == first_member_power(roster@, key@),
        decreases roster@.len() - i,
    {
        let ghost rest = roster@.subrange(i as int, roster@.len() as int);
        if bytes_equal(&roster[i].public_key, key) {
            proof {
                assert(rest[0] == roster@[i as int]);
            }
            return roster[i].voting_power;
        }
        proof {
            assert(rest.drop_first() == roster@.subrange(i + 1, roster@.len() as int));
        }
        i = i + 1;
    }
    0
}

/// Whether a fat pointer's distinct signers hold more than two thirds of the
/// roster's voting power; an empty-power roster never has a quorum.
pub fn fat_pointer_has_roster_quorum(
    fat_pointer: &FatPointerToBftBlock2,
    roster: &[MalValidator],
) -> (r: bool)
    requires
        fat_pointer.signatures@.len() <= u32::MAX,
        roster@.len() <= u32::MAX,
    ensures
        r == has_roster_quorum(fat_pointer@, roster@),
{
    let mut total: u128 = 0;
    let mut i: usize = 0;
    while i < roster.len()
        invariant
            0 <= i <= roster@.len(),
            roster@.len() <= u32::MAX,
            total == total_voting_power(roster@.subrange(0, i as int)),
        decreases roster@.len() - i,
    {
        proof {
            lemma_total_voting_power_bound(roster@.subrange(0, i as int));
            assert(roster@.subrange(0, i + 1).drop_last() == roster@.subrange(0, i as int));
            assert(i * (u64::MAX as int) <= (u32::MAX as int) * (u64::MAX as int)) by (nonlinear_arith)
                requires
                    i <= u32::MAX,
            ;
        }
        total = total + roster[i].voting_power as u128;
        i = i + 1;
    }
    proof {
        assert(roster@.subrange(0, roster@.len() as int) == roster@);
        lemma_total_voting_power_bound(roster@);
        assert(roster@.len() * (u64::MAX as int) <= (u32::MAX as int) * (u64::MAX as int))
            by (nonlinear_arith)
            requires
                roster@.len() <= u32::MAX,
        ;
    }
    if total == 0 {
        return false;
    }
    let ghost sigs = fat_pointer@.signatures;
    let mut signed: u128 = 0;
    let mut k: usize = 0;
    while k < fat_pointer.signatures.len()
        invariant
            0 <= k <= sigs.len(),
            sigs == fat_pointer@.signatures,
            sigs.len() <= u32::MAX,
            signed == signed_voting_power(sigs.subrange(0, k as int), roster@),
        decreases sigs.len() - k,
    {
        let key = &fat_pointer.signatures[k].public_key;
        let mut seen = false;
        let mut j: usize = 0;
        while j < k
            invariant
                0 <= j <= k,
                k < sigs.len(),
                sigs == fat_pointer@.signatures,
                key@ == sigs[k as int].public_key,
                seen <==> exists|m: int| 0 <= m < j && (#[trigger] sigs[m]).public_key == key@,
            decreases k - j,
        {
            if bytes_equal(&fat_pointer.signatures[j].public_key, key) {
                seen = true;
            }
            proof {
                let jj = j as int;
                if exists|m: int| 0 <= m < jj + 1 && (#[trigger] sigs[m]).public_key == key@ {
                    let m = choose|m: int| 0 <= m < jj + 1 && (#[trigger] sigs[m]).public_key == key@;
                    if m < jj {
                        assert(exists|m2: int| 0 <= m2 < jj && (#[trigger] sigs[m2]).public_key == key@);
                    }
                }
                if sigs[jj].public_key == key@ {
                    assert(exists|m: int| 0 <= m < jj + 1 && (#[trigger] sigs[m]).public_key == key@);
                }
                if exists|m: int| 0 <= m < jj && (#[trigger] sigs[m]).public_key == key@ {
                    let m = choose|m: int| 0 <= m < jj && (#[trigger] sigs[m]).public_key == key@;
                    assert(0 <= m < jj + 1 && sigs[m].public_key == key@);
                }
            }
            j = j + 1;
        }
        proof {
            let prefix = sigs.subrange(0, k + 1);
            assert(prefix.drop_last() == sigs.subrange(0, k as int));
            assert(prefix.last() == sigs[k as int]);
            let earlier = prefix.drop_last();
            assert(seen <==> exists|m: int|
                0 <= m < earlier.len() && (#[trigger] earlier[m]).public_key == key@) by {
                if seen {
                    let m = choose|m: int| 0 <= m < k && (#[trigger] sigs[m]).public_key == key@;
                    assert(earlier[m] == sigs[m]);
                }
                if exists|m: int| 0 <= m < earlier.len() && (#[trigger] earlier[m]).public_key
                    == key@ {
                    let m = choose|m: int|
                        0 <= m < earlier.len() && (#[trigger] earlier[m]).public_key == key@;
                    assert(earlier[m] == sigs[m]);
                }
            }
            lemma_signed_voting_power_bound(sigs.subrange(0, k as int), roster@);
            lemma_first_member_power_bound(roster@, key@);
            assert(k * (u64::MAX as int) <= (u32::MAX as int) * (u64::MAX as int))
                by (nonlinear_arith)
                requires
                    k <= u32::MAX,
            ;
        }
        if !seen {
            let power = first_member_power_exec(roster, key);
            signed = signed + power as u128;
        }
        k = k + 1;
    }
    proof {
        assert(sigs.subrange(0, sigs.len() as int) == sigs);
        lemma_signed_voting_power_bound(sigs, roster@);
        assert(sigs.len() * (u64::MAX as int) <= (u32::MAX as int) * (u64::MAX as int))
            by (nonlinear_arith)
            requires
                sigs.len() <= u32::MAX,
        ;
    }
    signed * 3 > total * 2
}

} // verus!
