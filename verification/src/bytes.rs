//! Byte-sequence helpers shared by the encoders and decoders.
use vstd::bytes::{
    lemma_auto_spec_u64_to_from_le_bytes, spec_u64_from_le_bytes, spec_u64_to_le_bytes,
    u64_from_le_bytes, u64_to_le_bytes,
};
use vstd::prelude::*;

verus! {

/// Append `src` to the end of `out`.
pub fn append_bytes(out: &mut Vec<u8>, src: &[u8])
    ensures
        final(out)@ == old(out)@ + src@,
{
    let mut i: usize = 0;
    while i < src.len()
        invariant
            0 <= i <= src@.len(),
            out@ == old(out)@ + src@.subrange(0, i as int),
        decreases src@.len() - i,
    {
        out.push(src[i]);
        i = i + 1;
        proof {
            assert(src@.subrange(0, i as int) == src@.subrange(0, i - 1) + seq![src@[i - 1]]);
        }
    }
    proof {
        assert(src@.subrange(0, src@.len() as int) == src@);
    }
}

/// Copy `N` bytes of `src` starting at `start` into an array.
pub fn array_from_slice<const N: usize>(src: &[u8], start: usize) -> (r: [u8; N])
    requires
        start + N <= src@.len(),
    ensures
        r@ == src@.subrange(start as int, start + N),
{
    let n = src.len();
    let mut buf = [0u8; N];
    let mut i: usize = 0;
    while i < N
        invariant
            0 <= i <= N,
            n == src@.len(),
            start + N <= src@.len(),
            buf@.len() == N,
            forall|j: int| 0 <= j < i ==> buf@[j] == src@[start + j],
        decreases N - i,
    {
        buf[i] = src[start + i];
        i = i + 1;
    }
    proof {
        assert(buf@ == src@.subrange(start as int, start + N));
    }
    buf
}

/// Two to the sixty-fourth.
pub open spec fn two_pow_64() -> int {
    18446744073709551616
}

/// Little-endian layout of a `u128`: the low 64 bits, then the high 64 bits.
pub open spec fn spec_u128_le(x: u128) -> Seq<u8> {
    spec_u64_to_le_bytes((x % 18446744073709551616u128) as u64) + spec_u64_to_le_bytes(
        (x / 18446744073709551616u128) as u64,
    )
}

/// The `u128` stored little-endian in 16 bytes.
pub open spec fn spec_u128_from_le(s: Seq<u8>) -> u128 {
    (spec_u64_from_le_bytes(s.subrange(0, 8)) + spec_u64_from_le_bytes(s.subrange(8, 16))
        * two_pow_64()) as u128
}

proof fn lemma_u128_split(x: u128)
    ensures
        x % 18446744073709551616u128 < two_pow_64(),
        x / 18446744073709551616u128 < two_pow_64(),
        (x % 18446744073709551616u128) + (x / 18446744073709551616u128) * two_pow_64() == x,
{
    let m = two_pow_64();
    vstd::arithmetic::div_mod::lemma_fundamental_div_mod(x as int, m);
    vstd::arithmetic::div_mod::lemma_mod_pos_bound(x as int, m);
    let q = x as int / m;
    let r = x as int % m;
    assert(q < m) by (nonlinear_arith)
        requires
            x as int == m * q + r,
            0 <= r < m,
            x <= u128::MAX,
            m == 18446744073709551616,
    ;
}

/// Reading back the layout of a `u128` gives the value.
pub proof fn lemma_u128_le_roundtrip(x: u128)
    ensures
        spec_u128_le(x).len() == 16,
        spec_u128_from_le(spec_u128_le(x)) == x,
{
    lemma_auto_spec_u64_to_from_le_bytes();
    lemma_u128_split(x);
    let s = spec_u128_le(x);
    assert(s.subrange(0, 8) == spec_u64_to_le_bytes((x % 18446744073709551616u128) as u64));
    assert(s.subrange(8, 16) == spec_u64_to_le_bytes((x / 18446744073709551616u128) as u64));
}

/// Append the little-endian layout of `x` to `out`.
pub fn write_u128_le(out: &mut Vec<u8>, x: u128)
    ensures
        final(out)@ == old(out)@ + spec_u128_le(x),
{
    proof {
        lemma_u128_split(x);
    }
    let lo = u64_to_le_bytes((x % 18446744073709551616u128) as u64);
    append_bytes(out, lo.as_slice());
    let hi = u64_to_le_bytes((x / 18446744073709551616u128) as u64);
    append_bytes(out, hi.as_slice());
}

/// Read a little-endian `u128` from 16 bytes at `pos`.
pub fn read_u128_le(bytes: &[u8], pos: usize) -> (r: u128)
    requires
        pos + 16 <= bytes@.len(),
    ensures
        r == spec_u128_from_le(bytes@.subrange(pos as int, pos + 16)),
{
    let _len = bytes.len();
    let lo_b = array_from_slice::<8>(bytes, pos);
    let hi_b = array_from_slice::<8>(bytes, pos + 8);
    let lo = u64_from_le_bytes(&lo_b);
    let hi = u64_from_le_bytes(&hi_b);
    proof {
        let s = bytes@.subrange(pos as int, pos + 16);
        assert(lo_b@ == s.subrange(0, 8));
        assert(hi_b@ == s.subrange(8, 16));
        assert(lo + hi * two_pow_64() <= u128::MAX) by (nonlinear_arith)
            requires
                lo <= u64::MAX,
                hi <= u64::MAX,
                two_pow_64() == 18446744073709551616,
        ;
    }
    let hi128 = hi as u128;
    let lo128 = lo as u128;
    assert(hi128 * 18446744073709551616u128 <= u128::MAX - lo128) by (nonlinear_arith)
        requires
            hi128 <= u64::MAX,
            lo128 <= u64::MAX,
    ;
    lo128 + hi128 * 18446744073709551616u128
}

/// Trusted: `String::push` appends one character to the string.
#[verifier::external_body]
pub(crate) fn string_push(s: &mut String, c: char)
    ensures
        final(s)@ == old(s)@.push(c),
{
    s.push(c);
}

} // verus!
