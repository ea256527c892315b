//! Variable-length integer encoding used for record sizes, row ids and
//! serial-type codes.
//!
//! Bytes 0 through 7 contribute their low 7 bits, most significant group
//! first; a clear high bit ends the encoding.  If all 8 of those bytes have
//! their high bit set, a 9th byte is consumed whole.  No encoding exceeds
//! 9 bytes.  Reads are length-driven: a decoder consumes only the bytes the
//! encoding needs and reports `TruncatedInput` when the buffer ends first.

use vstd::prelude::*;
use vstd::arithmetic::div_mod::{
    lemma_div_denominator, lemma_fundamental_div_mod, lemma_small_mod,
};
use crate::DecodeError;

verus! {

/// Value of the first `n` bytes of `s` read as a varint body: seven bits per
/// byte for the first eight, all eight bits of a ninth.
pub open spec fn varint_value_rec(s: Seq<u8>, n: int) -> int
    decreases n,
{
    if n <= 0 {
        0
    } else if n == 9 {
        varint_value_rec(s, 8) * 256 + s[8]
    } else {
        varint_value_rec(s, n - 1) * 128 + (s[n - 1] % 128)
    }
}

/// Number of bytes the varint at the head of `s` occupies, or `None` when
/// `s` ends before the encoding does.
pub open spec fn spec_varint_size(s: Seq<u8>) -> Option<int> {
    spec_varint_size_from(s, 0)
}

pub open spec fn spec_varint_size_from(s: Seq<u8>, i: int) -> Option<int>
    decreases 8 - i,
{
    if i >= s.len() {
        None
    } else if i >= 8 {
        Some(9)
    } else if s[i] < 128 {
        Some(i + 1)
    } else {
        spec_varint_size_from(s, i + 1)
    }
}

/// Decoded value and byte length of the varint at the head of `s`.
pub open spec fn spec_decode_varint(s: Seq<u8>) -> Result<(u64, int), DecodeError> {
    match spec_varint_size(s) {
        Some(n) => Ok((varint_value_rec(s, n) as u64, n)),
        None => Err(DecodeError::TruncatedInput),
    }
}

/// Byte length of the encoding of `v`: one byte per full 7 bits, capped at 9.
pub open spec fn spec_encoded_size(v: u64) -> int {
    if v < 0x80 {
        1
    } else if v < 0x4000 {
        2
    } else if v < 0x20_0000 {
        3
    } else if v < 0x1000_0000 {
        4
    } else if v < 0x8_0000_0000 {
        5
    } else if v < 0x400_0000_0000 {
        6
    } else if v < 0x2_0000_0000_0000 {
        7
    } else if v < 0x100_0000_0000_0000 {
        8
    } else {
        9
    }
}

/// The `k` big-endian 7-bit groups of `v`, without continuation bits.
pub open spec fn enc_groups(v: int, k: int) -> Seq<u8>
    decreases k,
{
    if k <= 0 {
        Seq::empty()
    } else {
        enc_groups(v / 128, k - 1).push((v % 128) as u8)
    }
}

/// `s` with the continuation bit set on every byte.
pub open spec fn add_cont_all(s: Seq<u8>) -> Seq<u8> {
    Seq::new(s.len(), |i: int| (s[i] + 128) as u8)
}

/// `s` with the continuation bit set on every byte but the last.
pub open spec fn add_cont_except_last(s: Seq<u8>) -> Seq<u8> {
    Seq::new(s.len(), |i: int| if i < s.len() - 1 { (s[i] + 128) as u8 } else { s[i] })
}

/// The encoding of `v`: 7-bit groups with continuation bits, or eight marked
/// groups and one full trailing byte for values needing a ninth group.
pub open spec fn spec_encode(v: u64) -> Seq<u8> {
    if v < 0x100_0000_0000_0000 {
        add_cont_except_last(enc_groups(v as int, spec_encoded_size(v)))
    } else {
        add_cont_all(enc_groups(v as int / 256, 8)).push((v % 256) as u8)
    }
}

proof fn lemma_enc_groups_len(v: int, k: int)
    ensures
        k >= 0 ==> enc_groups(v, k).len() == k,
        forall|i: int| 0 <= i < enc_groups(v, k).len() ==> enc_groups(v, k)[i] < 128,
    decreases k,
{
    if k > 0 {
        lemma_enc_groups_len(v / 128, k - 1);
    }
}

/// The varint body value only looks at each byte modulo 128 (or whole for a
/// ninth byte), so two buffers agreeing there decode alike.
proof fn lemma_value_rec_congruent(s1: Seq<u8>, s2: Seq<u8>, n: int)
    requires
        n <= 8,
        forall|i: int| 0 <= i < n ==> s1[i] % 128 == s2[i] % 128,
    ensures
        varint_value_rec(s1, n) == varint_value_rec(s2, n),
    decreases n,
{
    if n > 0 {
        lemma_value_rec_congruent(s1, s2, n - 1);
    }
}

/// Decoding `k` groups of `v` recovers `v % 128^k`.
proof fn lemma_groups_value(v: int, k: int, p: int)
    requires
        0 <= v,
        1 <= k <= 8,
        p == vstd::arithmetic::power::pow(128, k as nat),
    ensures
        varint_value_rec(enc_groups(v, k), k) == v % p,
    decreases k,
{
    vstd::arithmetic::power::lemma_pow_positive(128, k as nat);
    lemma_enc_groups_len(v, k);
    let s = enc_groups(v, k);
    assert(s == enc_groups(v / 128, k - 1).push((v % 128) as u8));
    if k == 1 {
        assert(varint_value_rec(s, 0) == 0);
        assert(varint_value_rec(s, 1) == s[0] % 128);
        assert(s[0] == (v % 128) as u8);
        assert(p == 128) by {
            vstd::arithmetic::power::lemma_pow1(128);
            assert(vstd::arithmetic::power::pow(128, 1nat) == 128);
        }
    } else {
        let q = vstd::arithmetic::power::pow(128, (k - 1) as nat);
        vstd::arithmetic::power::lemma_pow_positive(128, (k - 1) as nat);
        lemma_value_rec_congruent(s, enc_groups(v / 128, k - 1), k - 1);
        lemma_groups_value(v / 128, k - 1, q);
        assert(varint_value_rec(s, k) == ((v / 128) % q) * 128 + (v % 128));
        // (v/128 % q)*128 + v%128 == v % (q*128)
        assert(p == q * 128) by {
            vstd::arithmetic::power::lemma_pow_adds(128, (k - 1) as nat, 1nat);
            vstd::arithmetic::power::lemma_pow1(128);
        }
        assert(((v / 128) % q) * 128 + (v % 128) == v % (q * 128)) by {
            lemma_fundamental_div_mod(v, 128);
            lemma_fundamental_div_mod(v / 128, q);
            lemma_div_denominator(v, 128, q);
            lemma_fundamental_div_mod(v, 128 * q);
            assert((v / 128 / q) * (128 * q) == (v / 128 / q) * q * 128) by (nonlinear_arith);
            assert(((v / 128) % q) * 128 == (v / 128 - q * (v / 128 / q)) * 128) by {
                lemma_fundamental_div_mod(v / 128, q);
                assert((v / 128) % q == v / 128 - q * (v / 128 / q));
            }
            assert((v / 128 - q * (v / 128 / q)) * 128 == (v / 128) * 128 - (q * (v / 128 / q)) * 128)
                by (nonlinear_arith);
            assert(q * (v / (128 * q)) * 128 == (v / (128 * q)) * (128 * q)) by (nonlinear_arith);
        }
    }
}

proof fn lemma_pow128_values()
    ensures
        vstd::arithmetic::power::pow(128, 1nat) == 0x80,
        vstd::arithmetic::power::pow(128, 2nat) == 0x4000,
        vstd::arithmetic::power::pow(128, 3nat) == 0x20_0000,
        vstd::arithmetic::power::pow(128, 4nat) == 0x1000_0000,
        vstd::arithmetic::power::pow(128, 5nat) == 0x8_0000_0000,
        vstd::arithmetic::power::pow(128, 6nat) == 0x400_0000_0000,
        vstd::arithmetic::power::pow(128, 7nat) == 0x2_0000_0000_0000,
        vstd::arithmetic::power::pow(128, 8nat) == 0x100_0000_0000_0000,
{
    reveal_with_fuel(vstd::arithmetic::power::pow, 9);
}

/// If the bytes from `i` up to `m` carry continuation bits and byte `m` does
/// not, the varint at the head of `s` is exactly `m + 1` bytes long.
proof fn lemma_size_stops(s: Seq<u8>, i: int, m: int)
    requires
        0 <= i <= m <= 7,
        m < s.len(),
        forall|j: int| i <= j < m ==> s[j] >= 128,
        s[m] < 128,
    ensures
        spec_varint_size_from(s, i) == Some(m + 1),
    decreases m - i,
{
    if i < m {
        lemma_size_stops(s, i + 1, m);
    }
}

/// If the first eight bytes all carry continuation bits and a ninth exists,
/// the varint is nine bytes long.
proof fn lemma_size_nine(s: Seq<u8>, i: int)
    requires
        0 <= i <= 8,
        s.len() >= 9,
        forall|j: int| i <= j < 8 ==> s[j] >= 128,
    ensures
        spec_varint_size_from(s, i) == Some(9int),
    decreases 8 - i,
{
    if i < 8 {
        lemma_size_nine(s, i + 1);
    }
}

/// Round trip: decoding an encoding recovers the value, and the length
/// decoded matches the length encoded.
pub proof fn lemma_varint_round_trip(v: u64)
    ensures
        spec_encode(v).len() == spec_encoded_size(v),
        spec_decode_varint(spec_encode(v)) == Ok::<(u64, int), DecodeError>((
            v,
            spec_encoded_size(v),
        )),
{
    let s = spec_encode(v);
    let k = spec_encoded_size(v);
    lemma_pow128_values();
    if v < 0x100_0000_0000_0000 {
        let g = enc_groups(v as int, k);
        lemma_enc_groups_len(v as int, k);
        // continuation-bit pattern fixes the decoded size
        assert(forall|j: int| 0 <= j < k - 1 ==> s[j] >= 128);
        assert(s[k - 1] == g[k - 1] && g[k - 1] < 128);
        lemma_size_stops(s, 0, k - 1);
        // the value survives the continuation bits
        let p = vstd::arithmetic::power::pow(128, k as nat);
        lemma_groups_value(v as int, k, p as int);
        lemma_value_rec_congruent(s, g, k);
        lemma_small_mod(v as nat, p as nat);
    } else {
        let g = enc_groups(v as int / 256, 8);
        lemma_enc_groups_len(v as int / 256, 8);
        assert(forall|j: int| 0 <= j < 8 ==> s[j] >= 128);
        lemma_size_nine(s, 0);
        let p = vstd::arithmetic::power::pow(128, 8nat);
        lemma_groups_value(v as int / 256, 8, p as int);
        lemma_value_rec_congruent(s, g, 8);
        lemma_small_mod((v as int / 256) as nat, p as nat);
        assert(varint_value_rec(s, 9) == (v as int / 256) * 256 + (v as int % 256));
        lemma_fundamental_div_mod(v as int, 256);
    }
}

/// Codec for the variable-length integer format.
pub struct VarInt;

impl VarInt {
    /// Decode a varint from the head of `bytes`, consuming only the bytes the
    /// encoding needs.
    pub fn decode(bytes: &[u8]) -> (r: Result<(u64, usize), DecodeError>)
        ensures
            match r {
                Ok((v, n)) => {
                    &&& spec_decode_varint(bytes@) == Ok::<(u64, int), DecodeError>((v, n as int))
                    &&& 1 <= n <= 9
                    &&& n <= bytes@.len()
                },
                Err(e) => spec_decode_varint(bytes@) == Err::<(u64, int), DecodeError>(e),
            },
    {
        let len = bytes.len();
        let mut acc: u64 = 0;
        let mut i: usize = 0;
        loop
            invariant
                0 <= i <= 8,
                i <= len,
                len == bytes@.len(),
                acc == varint_value_rec(bytes@, i as int),
                acc < 0x100_0000_0000_0000,
                forall|j: int| 0 <= j < i ==> bytes@[j] >= 128,
                spec_varint_size_from(bytes@, 0) == spec_varint_size_from(bytes@, i as int),
            decreases 9 - i,
        {
            if i >= len {
                return Err(DecodeError::TruncatedInput);
            }
            let b = bytes[i];
            if i == 8 {
                let v = acc * 256 + (b as u64);
                return Ok((v, 9));
            }
            proof {
                lemma_varint_acc_bound(bytes@, i as int);
            }
            acc = acc * 128 + ((b % 128) as u64);
            i = i + 1;
            if b < 128 {
                return Ok((acc, i));
            }
        }
    }

    /// Encode `value`, emitting the fewest bytes its 7-bit groups allow; a
    /// value needing a ninth group ends in one full 8-bit byte.
    pub fn encode(value: u64) -> (r: Vec<u8>)
        ensures
            r@ == spec_encode(value),
            r@.len() == spec_encoded_size(value),
    {
        let mut out: Vec<u8> = Vec::new();
        if value >= 0x100_0000_0000_0000 {
            let hi = value / 256;
            out.push((hi / 0x2_0000_0000_0000 % 128 + 128) as u8);
            out.push((hi / 0x400_0000_0000 % 128 + 128) as u8);
            out.push((hi / 0x8_0000_0000 % 128 + 128) as u8);
            out.push((hi / 0x1000_0000 % 128 + 128) as u8);
            out.push((hi / 0x20_0000 % 128 + 128) as u8);
            out.push((hi / 0x4000 % 128 + 128) as u8);
            out.push((hi / 0x80 % 128 + 128) as u8);
            out.push((hi % 128 + 128) as u8);
            out.push((value % 256) as u8);
            proof {
                lemma_enc_groups_unroll8(value as int / 256);
                assert(out@ =~= spec_encode(value));
            }
        } else {
            let k = Self::encoded_size(value);
            proof {
                vstd::arithmetic::power::lemma_pow0(128);
            }
            let mut divisor: u64 = 1;
            let mut e: usize = 1;
            while e < k
                invariant
                    1 <= e <= k <= 8,
                    k == spec_encoded_size(value),
                    divisor == vstd::arithmetic::power::pow(128, (e - 1) as nat),
                    divisor <= 0x2_0000_0000_0000,
                decreases k - e,
            {
                proof {
                    lemma_pow128_values();
                    vstd::arithmetic::power::lemma_pow_adds(128, (e - 1) as nat, 1nat);
                    vstd::arithmetic::power::lemma_pow1(128);
                }
                divisor = divisor * 128;
                e = e + 1;
            }
            proof {
                lemma_enc_groups_len(value as int, k as int);
            }
            let mut i: usize = 0;
            while i < k
                invariant
                    0 <= i <= k <= 8,
                    k == spec_encoded_size(value),
                    value < 0x100_0000_0000_0000,
                    i < k ==> divisor == vstd::arithmetic::power::pow(128, (k - 1 - i) as nat),
                    out@.len() == i,
                    spec_encode(value).len() == k,
                    forall|j: int| 0 <= j < i ==> out@[j] == spec_encode(value)[j],
                decreases k - i,
            {
                proof {
                    lemma_pow128_values();
                    lemma_enc_groups_len(value as int, k as int);
                    lemma_enc_group_at(value as int, k as int, i as int);
                    vstd::arithmetic::power::lemma_pow_positive(128, (k - 1 - i) as nat);
                }
                let group = value / divisor % 128;
                proof {
                    assert(group == enc_groups(value as int, k as int)[i as int]);
                }
                if i + 1 < k {
                    out.push((group + 128) as u8);
                } else {
                    out.push(group as u8);
                }
                if i + 1 < k {
                    proof {
                        vstd::arithmetic::power::lemma_pow_adds(128, (k - 2 - i) as nat, 1nat);
                        vstd::arithmetic::power::lemma_pow1(128);
                        vstd::arithmetic::power::lemma_pow_positive(128, (k - 2 - i) as nat);
                    }
                    divisor = divisor / 128;
                }
                i = i + 1;
            }
            proof {
                lemma_enc_groups_len(value as int, k as int);
                assert(out@ =~= spec_encode(value));
            }
        }
        out
    }

    /// Number of bytes `value` occupies when encoded.
    pub fn encoded_size(value: u64) -> (r: usize)
        ensures
            r as int == spec_encoded_size(value),
    {
        if value < 0x80 {
            1
        } else if value < 0x4000 {
            2
        } else if value < 0x20_0000 {
            3
        } else if value < 0x1000_0000 {
            4
        } else if value < 0x8_0000_0000 {
            5
        } else if value < 0x400_0000_0000 {
            6
        } else if value < 0x2_0000_0000_0000 {
            7
        } else if value < 0x100_0000_0000_0000 {
            8
        } else {
            9
        }
    }

    /// Encode a record size; record sizes use the ordinary varint format.
    pub fn encode_record_size(size: usize) -> (r: Vec<u8>)
        ensures
            r@ == spec_encode(size as u64),
    {
        Self::encode(size as u64)
    }

    /// Split a column-header value into its low 3 type bits and remaining
    /// size bits.
    pub fn parse_column_header(header_val: u64) -> (r: (u8, usize))
        ensures
            r.0 == header_val % 8,
            r.1 == (header_val / 8) as usize,
    {
        let type_code = (header_val % 8) as u8;
        let size = #[verifier::truncate] ((header_val / 8) as usize);
        (type_code, size)
    }
}

proof fn lemma_varint_acc_bound(s: Seq<u8>, n: int)
    requires
        0 <= n <= 7,
    ensures
        varint_value_rec(s, n) < 0x2_0000_0000_0000,
{
    lemma_pow128_values();
    if n == 0 {
        assert(varint_value_rec(s, 0) == 0);
    } else {
        vstd::arithmetic::power::lemma_pow_increases(128, n as nat, 7nat);
        lemma_varint_acc_bound_rec(s, n, 0x2_0000_0000_0000);
    }
}

proof fn lemma_varint_acc_bound_rec(s: Seq<u8>, n: int, bound: int)
    requires
        0 <= n <= 8,
        bound >= vstd::arithmetic::power::pow(128, n as nat),
    ensures
        varint_value_rec(s, n) < bound,
    decreases n,
{
    vstd::arithmetic::power::lemma_pow_positive(128, n as nat);
    if n == 0 {
        assert(varint_value_rec(s, 0) == 0);
        vstd::arithmetic::power::lemma_pow0(128);
    } else {
        let p1 = vstd::arithmetic::power::pow(128, (n - 1) as nat);
        vstd::arithmetic::power::lemma_pow_adds(128, (n - 1) as nat, 1nat);
        vstd::arithmetic::power::lemma_pow1(128);
        lemma_varint_acc_bound_rec(s, n - 1, p1 as int);
        assert(varint_value_rec(s, n) == varint_value_rec(s, n - 1) * 128 + (s[n - 1] % 128));
        assert(varint_value_rec(s, n - 1) * 128 <= (p1 - 1) * 128) by (nonlinear_arith)
            requires varint_value_rec(s, n - 1) <= p1 - 1;
        assert(p1 * 128 <= bound);
    }
}

proof fn lemma_enc_group_at(v: int, k: int, i: int)
    requires
        0 <= i < k <= 8,
        0 <= v,
    ensures
        enc_groups(v, k)[i] == (v / vstd::arithmetic::power::pow(128, (k - 1 - i) as nat) % 128) as u8,
    decreases k,
{
    lemma_enc_groups_len(v, k);
    if i == k - 1 {
        vstd::arithmetic::power::lemma_pow0(128);
    } else {
        lemma_enc_group_at(v / 128, k - 1, i);
        let e = (k - 2 - i) as nat;
        vstd::arithmetic::power::lemma_pow_positive(128, e);
        vstd::arithmetic::power::lemma_pow_adds(128, 1nat, e);
        vstd::arithmetic::power::lemma_pow1(128);
        lemma_div_denominator(v, 128, vstd::arithmetic::power::pow(128, e) as int);
    }
}

proof fn lemma_enc_groups_unroll8(v: int)
    requires
        0 <= v,
    ensures
        enc_groups(v, 8) =~= seq![
            (v / 0x2_0000_0000_0000 % 128) as u8,
            (v / 0x400_0000_0000 % 128) as u8,
            (v / 0x8_0000_0000 % 128) as u8,
            (v / 0x1000_0000 % 128) as u8,
            (v / 0x20_0000 % 128) as u8,
            (v / 0x4000 % 128) as u8,
            (v / 0x80 % 128) as u8,
            (v % 128) as u8,
        ],
{
    lemma_pow128_values();
    vstd::arithmetic::power::lemma_pow0(128);
    lemma_enc_groups_len(v, 8);
    assert forall|i: int| 0 <= i < 8 implies enc_groups(v, 8)[i] == (v
        / vstd::arithmetic::power::pow(128, (7 - i) as nat) % 128) as u8 by {
        lemma_enc_group_at(v, 8, i);
    }
    assert(vstd::arithmetic::power::pow(128, 0nat) == 1);
}

/// Decode a varint known to be complete; the free-standing form used by the
/// record and cell decoders' callers.
pub fn decode_sqlite_varint(bytes: &[u8]) -> (r: (u64, usize))
    requires
        spec_varint_size(bytes@) is Some,
    ensures
        spec_decode_varint(bytes@) == Ok::<(u64, int), DecodeError>((r.0, r.1 as int)),
        1 <= r.1 <= 9,
        r.1 <= bytes@.len(),
{
    match VarInt::decode(bytes) {
        Ok(p) => p,
        Err(_) => {
            proof {
                assert(false);
            }
            (0, 1)
        }
    }
}

} // verus!
