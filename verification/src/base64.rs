//! Reversible binary-to-text codec in standard base64 with `=` padding, for
//! contexts such as HTTP header values where emoji text is unwelcome. The
//! codec is a total bijection onto canonical base64: every byte sequence
//! encodes, and decoding accepts exactly the strings the encoder produces.

use vstd::prelude::*;

use crate::errors::CryptoError;
use crate::primitives::try_utf8_to_string;

verus! {

/// The alphabet symbol (as an ASCII byte) of one 6-bit value.
pub open spec fn b64_char(v: int) -> u8 {
    if v < 26 {
        (65 + v) as u8
    } else if v < 52 {
        (71 + v) as u8
    } else if v < 62 {
        (v - 4) as u8
    } else if v == 62 {
        43
    } else {
        47
    }
}

/// True when the byte is an alphabet symbol (not padding).
pub open spec fn is_b64_char(c: u8) -> bool {
    (65 <= c <= 90) || (97 <= c <= 122) || (48 <= c <= 57) || c == 43 || c == 47
}

/// The 6-bit value of an alphabet symbol.
pub open spec fn b64_val(c: u8) -> int {
    if 65 <= c <= 90 {
        c - 65
    } else if 97 <= c <= 122 {
        c - 71
    } else if 48 <= c <= 57 {
        c + 4
    } else if c == 43 {
        62
    } else {
        63
    }
}

/// The four symbols of one full 3-byte group.
pub open spec fn encode_group3(b0: u8, b1: u8, b2: u8) -> Seq<u8> {
    seq![
        b64_char(b0 as int / 4),
        b64_char((b0 as int % 4) * 16 + b1 as int / 16),
        b64_char((b1 as int % 16) * 4 + b2 as int / 64),
        b64_char(b2 as int % 64),
    ]
}

/// The four symbols of a trailing single byte: two symbols, two pads.
pub open spec fn encode_tail1(b0: u8) -> Seq<u8> {
    seq![b64_char(b0 as int / 4), b64_char((b0 as int % 4) * 16), 61u8, 61u8]
}

/// The four symbols of a trailing byte pair: three symbols, one pad.
pub open spec fn encode_tail2(b0: u8, b1: u8) -> Seq<u8> {
    seq![b64_char(b0 as int / 4), b64_char((b0 as int % 4) * 16 + b1 as int / 16), b64_char((b1 as int % 16) * 4), 61u8]
}

/// The canonical base64 encoding of a payload, as ASCII bytes.
pub open spec fn base64_bytes(bs: Seq<u8>) -> Seq<u8>
    decreases bs.len(),
{
    if bs.len() >= 3 {
        encode_group3(bs[0], bs[1], bs[2]) + base64_bytes(bs.skip(3))
    } else if bs.len() == 2 {
        encode_tail2(bs[0], bs[1])
    } else if bs.len() == 1 {
        encode_tail1(bs[0])
    } else {
        Seq::empty()
    }
}

/// The first payload byte of a group.
pub open spec fn dec_b0(c0: u8, c1: u8) -> u8 {
    (b64_val(c0) * 4 + b64_val(c1) / 16) as u8
}

/// The second payload byte of a group.
pub open spec fn dec_b1(c1: u8, c2: u8) -> u8 {
    ((b64_val(c1) % 16) * 16 + b64_val(c2) / 4) as u8
}

/// The third payload byte of a group.
pub open spec fn dec_b2(c2: u8, c3: u8) -> u8 {
    ((b64_val(c2) % 4) * 64 + b64_val(c3)) as u8
}

/// The payload a base64 text decodes to, or nothing when the text is not
/// canonical base64: symbols in groups of four, padding only in the last
/// group, and zeroed spare bits under the padding.
pub open spec fn base64_decoded(s: Seq<u8>) -> Option<Seq<u8>>
    decreases s.len(),
{
    if s.len() == 0 {
        Some(Seq::empty())
    } else if s.len() < 4 {
        None
    } else if !is_b64_char(s[0]) || !is_b64_char(s[1]) {
        None
    } else if s[2] == 61 && s[3] == 61 {
        if s.len() == 4 && b64_val(s[1]) % 16 == 0 {
            Some(seq![dec_b0(s[0], s[1])])
        } else {
            None
        }
    } else if s[3] == 61 {
        if s.len() == 4 && is_b64_char(s[2]) && b64_val(s[2]) % 4 == 0 {
            Some(seq![dec_b0(s[0], s[1]), dec_b1(s[1], s[2])])
        } else {
            None
        }
    } else if is_b64_char(s[2]) && is_b64_char(s[3]) {
        match base64_decoded(s.skip(4)) {
            None => None,
            Some(rest) => Some(
                seq![dec_b0(s[0], s[1]), dec_b1(s[1], s[2]), dec_b2(s[2], s[3])] + rest,
            ),
        }
    } else {
        None
    }
}

/// The symbol of a value and back: the alphabet is faithful.
proof fn lemma_b64_char_val(v: int)
    requires
        0 <= v < 64,
    ensures
        is_b64_char(b64_char(v)),
        b64_val(b64_char(v)) == v,
        b64_char(v) != 61,
{
}

/// Encoding a payload with a multiple-of-three prefix splits into the
/// encodings of the parts.
proof fn lemma_base64_bytes_concat(a: Seq<u8>, b: Seq<u8>)
    requires
        a.len() % 3 == 0,
    ensures
        base64_bytes(a + b) == base64_bytes(a) + base64_bytes(b),
    decreases a.len(),
{
    if a.len() == 0 {
        assert(a + b =~= b);
        assert(base64_bytes(a + b) =~= base64_bytes(a) + base64_bytes(b));
    } else {
        let s = a + b;
        assert(s.len() >= 3);
        assert(s[0] == a[0] && s[1] == a[1] && s[2] == a[2]);
        assert(s.skip(3) =~= a.skip(3) + b);
        lemma_base64_bytes_concat(a.skip(3), b);
        assert(base64_bytes(a + b) =~= base64_bytes(a) + base64_bytes(b));
    }
}

/// Groups of a full-group prefix reconstruct their payload bytes.
proof fn lemma_group_reconstruct(b0: u8, b1: u8, b2: u8)
    ensures
        b64_val(b64_char(b0 as int / 4)) * 4 + b64_val(
            b64_char((b0 as int % 4) * 16 + b1 as int / 16),
        ) / 16 == b0,
        (b64_val(b64_char((b0 as int % 4) * 16 + b1 as int / 16)) % 16) * 16 + b64_val(
            b64_char((b1 as int % 16) * 4 + b2 as int / 64),
        ) / 4 == b1,
        (b64_val(b64_char((b1 as int % 16) * 4 + b2 as int / 64)) % 4) * 64 + b64_val(
            b64_char(b2 as int % 64),
        ) == b2,
{
    lemma_b64_char_val(b0 as int / 4);
    lemma_b64_char_val((b0 as int % 4) * 16 + b1 as int / 16);
    lemma_b64_char_val((b1 as int % 16) * 4 + b2 as int / 64);
    lemma_b64_char_val(b2 as int % 64);
    assert((b0 / 4) * 4 + ((b0 % 4) * 16 + b1 / 16) / 16 == b0) by (nonlinear_arith);
    assert((((b0 % 4) * 16 + b1 / 16) % 16) * 16 + ((b1 % 16) * 4 + b2 / 64) / 4 == b1)
        by (nonlinear_arith);
    assert((((b1 % 16) * 4 + b2 / 64) % 4) * 64 + (b2 % 64) == b2) by (nonlinear_arith);
}

/// Decoding inverts encoding: the codec round-trips on every payload.
pub proof fn lemma_base64_decoded_of_encoded(bs: Seq<u8>)
    ensures
        base64_decoded(base64_bytes(bs)) == Some(bs),
    decreases bs.len(),
{
    let s = base64_bytes(bs);
    if bs.len() == 0 {
        assert(base64_decoded(s) =~= Some(bs));
    } else if bs.len() == 1 {
        let b0 = bs[0];
        lemma_b64_char_val(b0 as int / 4);
        lemma_b64_char_val((b0 as int % 4) * 16);
        assert(((b0 % 4) * 16) % 16 == 0) by (nonlinear_arith);
        assert((b0 / 4) * 4 + ((b0 % 4) * 16) / 16 == b0) by (nonlinear_arith);
        assert(base64_decoded(s) matches Some(v) && v =~= bs);
    } else if bs.len() == 2 {
        let b0 = bs[0];
        let b1 = bs[1];
        lemma_b64_char_val(b0 as int / 4);
        lemma_b64_char_val((b0 as int % 4) * 16 + b1 as int / 16);
        lemma_b64_char_val((b1 as int % 16) * 4);
        assert(((b1 % 16) * 4) % 4 == 0) by (nonlinear_arith);
        assert((b0 / 4) * 4 + ((b0 % 4) * 16 + b1 / 16) / 16 == b0) by (nonlinear_arith);
        assert((((b0 % 4) * 16 + b1 / 16) % 16) * 16 + ((b1 % 16) * 4) / 4 == b1)
            by (nonlinear_arith);
        assert(base64_decoded(s) matches Some(v) && v =~= bs);
    } else {
        let b0 = bs[0];
        let b1 = bs[1];
        let b2 = bs[2];
        let rest = bs.skip(3);
        assert(s =~= encode_group3(b0, b1, b2) + base64_bytes(rest));
        lemma_group_reconstruct(b0, b1, b2);
        lemma_base64_decoded_of_encoded(rest);
        lemma_base64_bytes_len(rest);
        assert(s.skip(4) =~= base64_bytes(rest));
        if rest.len() == 0 {
            assert(s.len() == 4);
            assert(base64_decoded(s) matches Some(v) && v =~= bs);
        } else {
            assert(s.len() > 4);
            assert(base64_decoded(s) matches Some(v) && v =~= bs);
        }
    }
}

pub proof fn lemma_base64_bytes_len(bs: Seq<u8>)
    ensures
        base64_bytes(bs).len() == 4 * ((bs.len() + 2) / 3),
        base64_bytes(bs).len() % 4 == 0,
    decreases bs.len(),
{
    if bs.len() >= 3 {
        lemma_base64_bytes_len(bs.skip(3));
    }
}

/// A text whose length is not a multiple of four decodes to nothing.
proof fn lemma_base64_decoded_ragged(s: Seq<u8>)
    requires
        s.len() % 4 != 0,
    ensures
        base64_decoded(s) is None,
    decreases s.len(),
{
    if s.len() >= 4 {
        lemma_base64_decoded_ragged(s.skip(4));
    }
}

/// An alphabet or padding byte is ASCII, so encoded text is valid UTF-8.
proof fn lemma_ascii_valid_utf8(s: Seq<u8>)
    requires
        forall|i: int| 0 <= i < s.len() ==> s[i] < 0x80,
    ensures
        vstd::utf8::valid_utf8(s),
    decreases s.len(),
{
    if s.len() != 0 {
        assert(vstd::utf8::is_leading_byte_width_1(s[0]));
        assert(vstd::utf8::valid_first_scalar(s));
        assert(vstd::utf8::length_of_first_scalar(s) == 1);
        let rest = vstd::utf8::pop_first_scalar(s);
        assert(rest =~= s.skip(1));
        lemma_ascii_valid_utf8(rest);
    }
}

proof fn lemma_base64_bytes_ascii(bs: Seq<u8>)
    ensures
        forall|i: int| 0 <= i < base64_bytes(bs).len() ==> #[trigger] base64_bytes(bs)[i] < 0x80,
    decreases bs.len(),
{
    if bs.len() >= 3 {
        lemma_base64_bytes_ascii(bs.skip(3));
        assert forall|i: int| 0 <= i < base64_bytes(bs).len() implies #[trigger] base64_bytes(
            bs,
        )[i] < 0x80 by {
            if i >= 4 {
                assert(base64_bytes(bs)[i] == base64_bytes(bs.skip(3))[i - 4]);
            }
        }
    }
}

/// The symbol of a 6-bit value, executably.
fn b64_char_of(v: u8) -> (r: u8)
    requires
        v < 64,
    ensures
        r == b64_char(v as int),
{
    if v < 26 {
        65 + v
    } else if v < 52 {
        71 + v
    } else if v < 62 {
        v - 4
    } else if v == 62 {
        43
    } else {
        47
    }
}

/// The 6-bit value of a byte, or nothing when it is not an alphabet symbol.
fn b64_val_of(c: u8) -> (r: Option<u8>)
    ensures
        r matches Some(v) ==> is_b64_char(c) && v as int == b64_val(c) && v < 64,
        r is None ==> !is_b64_char(c),
{
    if 65 <= c && c <= 90 {
        Some(c - 65)
    } else if 97 <= c && c <= 122 {
        Some(c - 71)
    } else if 48 <= c && c <= 57 {
        Some(c + 4)
    } else if c == 43 {
        Some(62)
    } else if c == 47 {
        Some(63)
    } else {
        None
    }
}

/// Encodes a byte payload as canonical base64 text.
pub fn encode(bs: &[u8]) -> (r: String)
    ensures
        vstd::utf8::encode_utf8(r@) == base64_bytes(bs@),
{
    let mut out: Vec<u8> = Vec::new();
    let mut i: usize = 0;
    let n = bs.len();
    while n - i >= 3
        invariant
            i <= n,
            n == bs@.len(),
            i % 3 == 0,
            out@ == base64_bytes(bs@.take(i as int)),
        decreases n - i,
    {
        let b0 = bs[i];
        let b1 = bs[i + 1];
        let b2 = bs[i + 2];
        assert(b0 / 4 < 64 && (b0 % 4) * 16 + b1 / 16 < 64 && (b1 % 16) * 4 + b2 / 64 < 64 && b2
            % 64 < 64) by (nonlinear_arith);
        out.push(b64_char_of(b0 / 4));
        out.push(b64_char_of((b0 % 4) * 16 + b1 / 16));
        out.push(b64_char_of((b1 % 16) * 4 + b2 / 64));
        out.push(b64_char_of(b2 % 64));
        proof {
            reveal_with_fuel(base64_bytes, 3);
            lemma_base64_bytes_concat(bs@.take(i as int), seq![b0, b1, b2]);
            assert(bs@.take(i as int + 3) =~= bs@.take(i as int) + seq![b0, b1, b2]);
            assert(seq![b0, b1, b2].skip(3) =~= Seq::<u8>::empty());
            assert(base64_bytes(seq![b0, b1, b2]) =~= encode_group3(b0, b1, b2));
            assert(out@ =~= base64_bytes(bs@.take(i as int + 3)));
        }
        i += 3;
    }
    if n - i == 1 {
        let b0 = bs[i];
        assert(b0 / 4 < 64 && (b0 % 4) * 16 < 64) by (nonlinear_arith);
        out.push(b64_char_of(b0 / 4));
        out.push(b64_char_of((b0 % 4) * 16));
        out.push(61);
        out.push(61);
        proof {
            reveal_with_fuel(base64_bytes, 3);
            lemma_base64_bytes_concat(bs@.take(i as int), seq![b0]);
            assert(bs@ =~= bs@.take(i as int) + seq![b0]);
            assert(base64_bytes(seq![b0]) =~= encode_tail1(b0));
            assert(out@ =~= base64_bytes(bs@));
        }
    } else if n - i == 2 {
        let b0 = bs[i];
        let b1 = bs[i + 1];
        assert(b0 / 4 < 64 && (b0 % 4) * 16 + b1 / 16 < 64 && (b1 % 16) * 4 < 64)
            by (nonlinear_arith);
        out.push(b64_char_of(b0 / 4));
        out.push(b64_char_of((b0 % 4) * 16 + b1 / 16));
        out.push(b64_char_of((b1 % 16) * 4));
        out.push(61);
        proof {
            reveal_with_fuel(base64_bytes, 3);
            lemma_base64_bytes_concat(bs@.take(i as int), seq![b0, b1]);
            assert(bs@ =~= bs@.take(i as int) + seq![b0, b1]);
            assert(base64_bytes(seq![b0, b1]) =~= encode_tail2(b0, b1));
            assert(out@ =~= base64_bytes(bs@));
        }
    } else {
        proof {
            assert(bs@.take(i as int) =~= bs@);
        }
    }
    proof {
        lemma_base64_bytes_ascii(bs@);
        lemma_ascii_valid_utf8(out@);
    }
    match try_utf8_to_string(out) {
        Some(s) => s,
        None => {
            proof {
                assert(false);
            }
            String::new()
        },
    }
}

/// How a decoded prefix and the decoding of the rest compose into the
/// decoding of the whole: an error anywhere is an error of the whole.
pub open spec fn decoded_from(prefix: Seq<u8>, suffix: Option<Seq<u8>>) -> Option<Seq<u8>> {
    match suffix {
        None => None,
        Some(rest) => Some(prefix + rest),
    }
}

/// Decodes canonical base64 text back to the byte payload; rejects any text
/// that the encoder could not have produced.
pub fn decode(s: &str) -> (r: Result<Vec<u8>, CryptoError>)
    ensures
        r matches Ok(v) ==> base64_decoded(vstd::utf8::encode_utf8(s@)) == Some(v@),
        r is Err ==> base64_decoded(vstd::utf8::encode_utf8(s@)) is None && r == Err::<
            Vec<u8>,
            CryptoError,
        >(CryptoError::DecodeError),
{
    let bytes = s.as_bytes();
    let ghost sb = vstd::utf8::encode_utf8(s@);
    let n = bytes.len();
    if n % 4 != 0 {
        proof {
            lemma_base64_decoded_ragged(sb);
        }
        return Err(CryptoError::DecodeError);
    }
    let mut out: Vec<u8> = Vec::new();
    let mut i: usize = 0;
    proof {
        assert(sb.skip(0) =~= sb);
        if base64_decoded(sb) is Some {
            assert(Seq::<u8>::empty() + base64_decoded(sb)->Some_0 =~= base64_decoded(
                sb,
            )->Some_0);
        }
    }
    while n - i > 4
        invariant
            sb == vstd::utf8::encode_utf8(s@),
            bytes@ == sb,
            n == sb.len(),
            n % 4 == 0,
            i % 4 == 0,
            i + 4 <= n || i == n,
            base64_decoded(sb) == decoded_from(out@, base64_decoded(sb.skip(i as int))),
        decreases n - i,
    {
        let c0 = b64_val_of(bytes[i]);
        let c1 = b64_val_of(bytes[i + 1]);
        let c2 = b64_val_of(bytes[i + 2]);
        let c3 = b64_val_of(bytes[i + 3]);
        let ghost g = sb.skip(i as int);
        proof {
            assert(g[0] == sb[i as int] && g[1] == sb[i as int + 1] && g[2] == sb[i as int + 2]
                && g[3] == sb[i as int + 3]);
            assert(g.skip(4) =~= sb.skip(i as int + 4));
        }
        let ghost prev = out@;
        match (c0, c1, c2, c3) {
            (Some(v0), Some(v1), Some(v2), Some(v3)) => {
                assert(v0 * 4 + v1 / 16 < 256 && (v1 % 16) * 16 + v2 / 4 < 256 && (v2 % 4) * 64
                    + v3 < 256) by (nonlinear_arith)
                    requires
                        v0 < 64 && v1 < 64 && v2 < 64 && v3 < 64,
                ;
                out.push(v0 * 4 + v1 / 16);
                out.push((v1 % 16) * 16 + v2 / 4);
                out.push((v2 % 4) * 64 + v3);
                proof {
                    let group = seq![dec_b0(g[0], g[1]), dec_b1(g[1], g[2]), dec_b2(g[2], g[3])];
                    assert(out@ =~= prev + group);
                    let tail = base64_decoded(sb.skip(i as int + 4));
                    assert(base64_decoded(g) == decoded_from(group, tail));
                    if tail is Some {
                        assert(prev + (group + tail->Some_0) =~= out@ + tail->Some_0);
                    }
                }
                i += 4;
            },
            _ => {
                return Err(CryptoError::DecodeError);
            },
        }
    }
    if i == n {
        proof {
            assert(sb.skip(n as int) =~= Seq::<u8>::empty());
            if base64_decoded(sb) is Some {
                assert(out@ + Seq::<u8>::empty() =~= out@);
            }
        }
        return Ok(out);
    }
    let c0 = match b64_val_of(bytes[i]) {
        Some(v) => v,
        None => { return Err(CryptoError::DecodeError) },
    };
    let c1 = match b64_val_of(bytes[i + 1]) {
        Some(v) => v,
        None => { return Err(CryptoError::DecodeError) },
    };
    let ghost g = sb.skip(i as int);
    proof {
        assert(g.len() == 4);
        assert(g[0] == sb[i as int] && g[1] == sb[i as int + 1] && g[2] == sb[i as int + 2] && g[3]
            == sb[i as int + 3]);
        assert(g.skip(4) =~= Seq::<u8>::empty());
    }
    let p2 = bytes[i + 2];
    let p3 = bytes[i + 3];
    let ghost prev = out@;
    if p2 == 61 && p3 == 61 {
        if c1 % 16 != 0 {
            return Err(CryptoError::DecodeError);
        }
        assert(c0 * 4 + c1 / 16 < 256) by (nonlinear_arith)
            requires
                c0 < 64 && c1 < 64,
        ;
        out.push(c0 * 4 + c1 / 16);
        proof {
            assert(base64_decoded(g) matches Some(v) && v =~= seq![dec_b0(g[0], g[1])]);
            assert(out@ =~= prev + seq![dec_b0(g[0], g[1])]);
        }
        Ok(out)
    } else if p3 == 61 {
        let c2 = match b64_val_of(p2) {
            Some(v) => v,
            None => { return Err(CryptoError::DecodeError) },
        };
        if c2 % 4 != 0 {
            return Err(CryptoError::DecodeError);
        }
        assert(c0 * 4 + c1 / 16 < 256 && (c1 % 16) * 16 + c2 / 4 < 256) by (nonlinear_arith)
            requires
                c0 < 64 && c1 < 64 && c2 < 64,
        ;
        out.push(c0 * 4 + c1 / 16);
        out.push((c1 % 16) * 16 + c2 / 4);
        proof {
            assert(base64_decoded(g) matches Some(v) && v =~= seq![
                dec_b0(g[0], g[1]),
                dec_b1(g[1], g[2]),
            ]);
            assert(out@ =~= prev + seq![dec_b0(g[0], g[1]), dec_b1(g[1], g[2])]);
        }
        Ok(out)
    } else {
        let c2 = match b64_val_of(p2) {
            Some(v) => v,
            None => { return Err(CryptoError::DecodeError) },
        };
        let c3 = match b64_val_of(p3) {
            Some(v) => v,
            None => { return Err(CryptoError::DecodeError) },
        };
        assert(c0 * 4 + c1 / 16 < 256 && (c1 % 16) * 16 + c2 / 4 < 256 && (c2 % 4) * 64 + c3 < 256)
            by (nonlinear_arith)
            requires
                c0 < 64 && c1 < 64 && c2 < 64 && c3 < 64,
        ;
        out.push(c0 * 4 + c1 / 16);
        out.push((c1 % 16) * 16 + c2 / 4);
        out.push((c2 % 4) * 64 + c3);
        proof {
            reveal_with_fuel(base64_decoded, 3);
            assert(base64_decoded(g) matches Some(v) && v =~= seq![
                dec_b0(g[0], g[1]),
                dec_b1(g[1], g[2]),
                dec_b2(g[2], g[3]),
            ]);
            assert(out@ =~= prev + seq![
                dec_b0(g[0], g[1]),
                dec_b1(g[1], g[2]),
                dec_b2(g[2], g[3]),
            ]);
        }
        Ok(out)
    }
}

} // verus!
