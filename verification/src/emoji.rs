//! Reversible binary-to-text codec over a fixed 256-symbol emoji alphabet.
//!
//! Each byte maps to one scalar in the contiguous range U+1F400..U+1F4FF, so
//! the encoded text is plain emoji that embeds verbatim in HTML text, form
//! field values and header values without further escaping. The codec is a
//! total bijection: every byte sequence encodes, and decoding accepts exactly
//! the strings the encoder produces. No cryptographic property is claimed.

use vstd::prelude::*;

use crate::errors::CryptoError;
use crate::primitives::try_utf8_to_string;

verus! {

/// The four UTF-8 bytes of the alphabet symbol for one payload byte:
/// the symbol is the scalar `U+1F400 + b`, whose UTF-8 encoding fixes the
/// first two bytes and spreads `b` over the low bits of the last two.
pub open spec fn emoji_block(b: u8) -> Seq<u8> {
    seq![0xF0u8, 0x9Fu8, (0x90 + b / 64) as u8, (0x80 + b % 64) as u8]
}

/// The UTF-8 bytes of the encoded form of a whole payload.
pub open spec fn emoji_bytes(bs: Seq<u8>) -> Seq<u8>
    decreases bs.len(),
{
    if bs.len() == 0 {
        Seq::empty()
    } else {
        emoji_block(bs[0]) + emoji_bytes(bs.drop_first())
    }
}

/// True when the bytes are exactly a sequence of well-formed alphabet blocks,
/// i.e. when they lie in the image of `emoji_bytes`.
pub open spec fn is_emoji_encoding(s: Seq<u8>) -> bool {
    &&& s.len() % 4 == 0
    &&& forall|i: int|
        0 <= i && 4 * i < s.len() ==> {
            &&& #[trigger] s[4 * i] == 0xF0
            &&& s[4 * i + 1] == 0x9F
            &&& 0x90 <= s[4 * i + 2] < 0x94
            &&& 0x80 <= s[4 * i + 3] < 0xC0
        }
}

/// The payload byte encoded by one well-formed alphabet block.
pub open spec fn emoji_block_value(b2: u8, b3: u8) -> u8 {
    (((b2 - 0x90) * 64 + (b3 - 0x80)) % 256) as u8
}

/// The payload recovered from an encoded byte sequence, read block by block.
pub open spec fn emoji_decoded(s: Seq<u8>) -> Seq<u8>
    decreases s.len(),
{
    if s.len() < 4 {
        Seq::empty()
    } else {
        seq![emoji_block_value(s[2], s[3])] + emoji_decoded(s.skip(4))
    }
}

pub proof fn lemma_emoji_bytes_len(bs: Seq<u8>)
    ensures
        emoji_bytes(bs).len() == 4 * bs.len(),
    decreases bs.len(),
{
    if bs.len() != 0 {
        lemma_emoji_bytes_len(bs.drop_first());
    }
}

/// Appending one payload byte appends exactly its block to the encoding.
pub proof fn lemma_emoji_bytes_snoc(bs: Seq<u8>, b: u8)
    ensures
        emoji_bytes(bs.push(b)) == emoji_bytes(bs) + emoji_block(b),
    decreases bs.len(),
{
    if bs.len() == 0 {
        assert(bs.push(b).drop_first() =~= bs);
        assert(emoji_bytes(bs.push(b)) =~= emoji_bytes(bs) + emoji_block(b));
    } else {
        assert(bs.push(b).drop_first() =~= bs.drop_first().push(b));
        lemma_emoji_bytes_snoc(bs.drop_first(), b);
        assert(emoji_bytes(bs.push(b)) =~= emoji_bytes(bs) + emoji_block(b));
    }
}

/// The encoder only produces well-formed block sequences.
pub proof fn lemma_emoji_bytes_is_encoding(bs: Seq<u8>)
    ensures
        is_emoji_encoding(emoji_bytes(bs)),
    decreases bs.len(),
{
    lemma_emoji_bytes_len(bs);
    let s = emoji_bytes(bs);
    assert(s.len() % 4 == 0) by (nonlinear_arith)
        requires
            s.len() == 4 * bs.len(),
    ;
    if bs.len() != 0 {
        lemma_emoji_bytes_is_encoding(bs.drop_first());
        lemma_emoji_bytes_len(bs.drop_first());
        let rest = emoji_bytes(bs.drop_first());
        assert forall|i: int| 0 <= i && 4 * i < s.len() implies {
            &&& #[trigger] s[4 * i] == 0xF0
            &&& s[4 * i + 1] == 0x9F
            &&& 0x90 <= s[4 * i + 2] < 0x94
            &&& 0x80 <= s[4 * i + 3] < 0xC0
        } by {
            if i == 0 {
                let b = bs[0];
                vstd::arithmetic::div_mod::lemma_fundamental_div_mod(b as int, 64);
                assert(s[0] == 0xF0 && s[1] == 0x9F);
                assert(s[2] == (0x90 + b / 64) as u8 && s[3] == (0x80 + b % 64) as u8);
            } else {
                assert(rest[4 * (i - 1)] == 0xF0);
                assert(s[4 * i] == rest[4 * (i - 1)]);
                assert(s[4 * i + 1] == rest[4 * (i - 1) + 1]);
                assert(s[4 * i + 2] == rest[4 * (i - 1) + 2]);
                assert(s[4 * i + 3] == rest[4 * (i - 1) + 3]);
            }
        }
    }
}

/// Decoding inverts encoding: the codec round-trips on every payload.
pub proof fn lemma_emoji_decoded_of_encoded(bs: Seq<u8>)
    ensures
        emoji_decoded(emoji_bytes(bs)) == bs,
    decreases bs.len(),
{
    lemma_emoji_bytes_len(bs);
    if bs.len() == 0 {
        assert(emoji_decoded(emoji_bytes(bs)) =~= bs);
    } else {
        let b = bs[0];
        let s = emoji_bytes(bs);
        lemma_emoji_bytes_len(bs.drop_first());
        assert(s.skip(4) =~= emoji_bytes(bs.drop_first()));
        lemma_emoji_decoded_of_encoded(bs.drop_first());
        vstd::arithmetic::div_mod::lemma_fundamental_div_mod(b as int, 64);
        assert(s[2] == (0x90 + b / 64) as u8 && s[3] == (0x80 + b % 64) as u8);
        assert(emoji_block_value(s[2], s[3]) == b);
        assert(emoji_decoded(s) =~= bs);
    }
}

/// A well-formed block sequence is valid UTF-8, one 4-byte scalar per block.
pub proof fn lemma_emoji_encoding_valid_utf8(s: Seq<u8>)
    requires
        is_emoji_encoding(s),
    ensures
        vstd::utf8::valid_utf8(s),
    decreases s.len(),
{
    if s.len() != 0 {
        let first: int = 0;
        assert(s[4 * first] == 0xF0);
        lemma_emoji_first_scalar(s);
        let rest = vstd::utf8::pop_first_scalar(s);
        assert(rest =~= s.skip(4));
        assert forall|i: int| 0 <= i && 4 * i < rest.len() implies {
            &&& #[trigger] rest[4 * i] == 0xF0
            &&& rest[4 * i + 1] == 0x9F
            &&& 0x90 <= rest[4 * i + 2] < 0x94
            &&& 0x80 <= rest[4 * i + 3] < 0xC0
        } by {
            assert(s[4 * (i + 1)] == 0xF0);
            assert(rest[4 * i] == s[4 * (i + 1)]);
            assert(rest[4 * i + 1] == s[4 * (i + 1) + 1]);
            assert(rest[4 * i + 2] == s[4 * (i + 1) + 2]);
            assert(rest[4 * i + 3] == s[4 * (i + 1) + 3]);
        }
        lemma_emoji_encoding_valid_utf8(rest);
    }
}

/// One well-formed block at the front of a byte sequence is a valid 4-byte
/// UTF-8 scalar in the alphabet's codepoint range.
proof fn lemma_emoji_first_scalar(s: Seq<u8>)
    requires
        s.len() >= 4,
        s[0] == 0xF0,
        s[1] == 0x9F,
        0x90 <= s[2] < 0x94,
        0x80 <= s[3] < 0xC0,
    ensures
        vstd::utf8::valid_first_scalar(s),
        vstd::utf8::length_of_first_scalar(s) == 4,
{
    let b3 = s[2];
    let b4 = s[3];
    assert(vstd::utf8::is_leading_byte_width_4(s[0]));
    assert(vstd::utf8::is_continuation_byte(s[1]));
    assert(vstd::utf8::is_continuation_byte(b3));
    assert(vstd::utf8::is_continuation_byte(b4));
    assert(vstd::utf8::valid_leading_and_continuation_bytes_first_codepoint(s));
    let cp = vstd::utf8::codepoint_width_4(s[0], s[1], b3, b4);
    assert(0x10000 <= ((((0xF0u8 & 0x07) as u32) << 18) | (((0x9Fu8 & 0x3f) as u32) << 12) | (((
    b3 & 0x3f) as u32) << 6) | ((b4 & 0x3f) as u32)) <= 0x10ffff) by (bit_vector)
        requires
            0x90 <= b3 < 0x94,
            0x80 <= b4 < 0xC0,
    ;
    assert(vstd::utf8::not_overlong_encoding(cp, 4));
    assert(vstd::utf8::not_surrogate(cp));
}

/// Encodes a byte payload as emoji text, four UTF-8 bytes per payload byte.
pub fn encode(bs: &[u8]) -> (r: String)
    ensures
        vstd::utf8::encode_utf8(r@) == emoji_bytes(bs@),
{
    let mut out: Vec<u8> = Vec::new();
    let mut i: usize = 0;
    while i < bs.len()
        invariant
            i <= bs@.len(),
            out@ == emoji_bytes(bs@.take(i as int)),
        decreases bs@.len() - i,
    {
        let b = bs[i];
        assert(b / 64 < 4 && b % 64 < 64) by (nonlinear_arith);
        out.push(0xF0);
        out.push(0x9F);
        out.push(0x90 + b / 64);
        out.push(0x80 + b % 64);
        proof {
            lemma_emoji_bytes_snoc(bs@.take(i as int), b);
            assert(bs@.take(i + 1 as int) =~= bs@.take(i as int).push(b));
            assert(out@ =~= emoji_bytes(bs@.take(i + 1 as int)));
        }
        i += 1;
    }
    proof {
        assert(bs@.take(bs@.len() as int) =~= bs@);
        lemma_emoji_bytes_is_encoding(bs@);
        lemma_emoji_encoding_valid_utf8(out@);
    }
    match try_utf8_to_string(out) {
        Some(s) => s,
        None => {
            proof {
                assert(false);
            }
            String::new()
        },
    }
}

/// Decodes emoji text back to the byte payload; rejects any text that the
/// encoder could not have produced.
pub fn decode(s: &str) -> (r: Result<Vec<u8>, CryptoError>)
    ensures
        r matches Ok(v) ==> is_emoji_encoding(vstd::utf8::encode_utf8(s@)) && v@ == emoji_decoded(
            vstd::utf8::encode_utf8(s@),
        ),
        r is Err ==> !is_emoji_encoding(vstd::utf8::encode_utf8(s@)) && r == Err::<
            Vec<u8>,
            CryptoError,
        >(CryptoError::DecodeError),
{
    let bytes = s.as_bytes();
    let ghost sb = vstd::utf8::encode_utf8(s@);
    let n = bytes.len();
    if n % 4 != 0 {
        return Err(CryptoError::DecodeError);
    }
    let mut out: Vec<u8> = Vec::new();
    let mut i: usize = 0;
    while i < n
        invariant
            sb == vstd::utf8::encode_utf8(s@),
            bytes@ == sb,
            n == sb.len(),
            n % 4 == 0,
            i % 4 == 0,
            i <= n,
            out@ == emoji_decoded(sb.take(i as int)),
            forall|j: int|
                0 <= j && 4 * j < i ==> {
                    &&& #[trigger] sb[4 * j] == 0xF0
                    &&& sb[4 * j + 1] == 0x9F
                    &&& 0x90 <= sb[4 * j + 2] < 0x94
                    &&& 0x80 <= sb[4 * j + 3] < 0xC0
                },
        decreases n - i,
    {
        let b0 = bytes[i];
        let b1 = bytes[i + 1];
        let b2 = bytes[i + 2];
        let b3 = bytes[i + 3];
        if !(b0 == 0xF0 && b1 == 0x9F && 0x90 <= b2 && b2 < 0x94 && 0x80 <= b3 && b3 < 0xC0) {
            proof {
                let bad = i as int / 4;
                vstd::arithmetic::div_mod::lemma_fundamental_div_mod(i as int, 4);
                assert(4 * bad == i as int);
                if is_emoji_encoding(sb) {
                    assert(sb[4 * bad] == 0xF0 && sb[4 * bad + 1] == 0x9F && 0x90 <= sb[4 * bad
                        + 2] < 0x94 && 0x80 <= sb[4 * bad + 3] < 0xC0);
                    assert(sb[4 * bad] == b0 && sb[4 * bad + 1] == b1 && sb[4 * bad + 2] == b2
                        && sb[4 * bad + 3] == b3);
                    assert(false);
                }
                assert(!is_emoji_encoding(sb));
            }
            return Err(CryptoError::DecodeError);
        }
        assert((b2 - 0x90) * 64 + (b3 - 0x80) < 256) by (nonlinear_arith)
            requires
                0x90 <= b2 < 0x94,
                0x80 <= b3 < 0xC0,
        ;
        out.push((b2 - 0x90) * 64 + (b3 - 0x80));
        proof {
            lemma_emoji_decoded_take_step(sb, i as int);
            assert(out@ =~= emoji_decoded(sb.take(i as int + 4)));
        }
        i += 4;
    }
    proof {
        assert(sb.take(n as int) =~= sb);
        assert(is_emoji_encoding(sb));
    }
    Ok(out)
}

/// Reading one more well-formed block extends the decoded prefix by its byte.
proof fn lemma_emoji_decoded_take_step(s: Seq<u8>, i: int)
    requires
        0 <= i,
        i % 4 == 0,
        i + 4 <= s.len(),
    ensures
        emoji_decoded(s.take(i + 4)) == emoji_decoded(s.take(i)).push(
            emoji_block_value(s[i + 2], s[i + 3]),
        ),
    decreases i,
{
    if i == 0 {
        reveal_with_fuel(emoji_decoded, 3);
        assert(s.take(4).len() == 4);
        assert(s.take(4)[2] == s[2] && s.take(4)[3] == s[3]);
        assert(s.take(4).skip(4) =~= Seq::<u8>::empty());
        assert(emoji_decoded(s.take(4)) =~= emoji_decoded(s.take(0)).push(
            emoji_block_value(s[2], s[3]),
        ));
    } else {
        let t = s.skip(4);
        lemma_emoji_decoded_take_step(t, i - 4);
        assert(s.take(i + 4).skip(4) =~= t.take(i));
        assert(s.take(i).skip(4) =~= t.take(i - 4));
        assert(t[i - 4 + 2] == s[i + 2] && t[i - 4 + 3] == s[i + 3]);
        assert(emoji_decoded(s.take(i + 4)) =~= seq![
            emoji_block_value(s.take(i + 4)[2], s.take(i + 4)[3]),
        ] + emoji_decoded(t.take(i)));
        assert(emoji_decoded(s.take(i)) =~= seq![
            emoji_block_value(s.take(i)[2], s.take(i)[3]),
        ] + emoji_decoded(t.take(i - 4)));
        assert(emoji_decoded(s.take(i + 4)) =~= emoji_decoded(s.take(i)).push(
            emoji_block_value(s[i + 2], s[i + 3]),
        ));
    }
}

} // verus!
