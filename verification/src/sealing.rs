//! Keyring sealing: a whole shared keyring serialized and encrypted under a
//! transient secret derived from the session identifier, so the sealed bundle
//! can travel inside a signed token and the server need not store per-session
//! key material. The derived secret is the widened hash of the session id,
//! encoded, stretched once more and cut to cipher width; any process holding
//! the same session id re-derives it.

use vstd::prelude::*;

use crate::emoji;
use crate::envelope::SharedKeyring;
use crate::errors::CryptoError;
use crate::primitives::{aead_open, aead_open_of, aead_seal, blake2b512, blake2b512_of,
    try_utf8_to_string};

verus! {

/// The two little-endian length bytes that prefix a serialized field.
pub open spec fn len2(n: int) -> Seq<u8> {
    seq![(n % 256) as u8, ((n / 256) % 256) as u8]
}

/// One serialized field: a two-byte little-endian length, then the bytes.
pub open spec fn field_bytes(b: Seq<u8>) -> Seq<u8> {
    len2(b.len() as int) + b
}

/// The serialized form of a keyring: its four fields in order, each length
/// prefixed, with the identity as UTF-8 bytes.
pub open spec fn keyring_bytes(
    user: Seq<char>,
    key: Seq<u8>,
    static_key: Seq<u8>,
    static_salt: Seq<u8>,
) -> Seq<u8> {
    field_bytes(vstd::utf8::encode_utf8(user)) + field_bytes(key) + field_bytes(static_key)
        + field_bytes(static_salt)
}

/// Splits one length-prefixed field off the front of a byte sequence.
pub open spec fn parse_field(s: Seq<u8>) -> Option<(Seq<u8>, Seq<u8>)> {
    if s.len() < 2 {
        None
    } else {
        let n = s[0] as int + 256 * (s[1] as int);
        if s.len() < 2 + n {
            None
        } else {
            Some((s.subrange(2, 2 + n), s.skip(2 + n)))
        }
    }
}

/// Reads the four serialized keyring fields, demanding that nothing follows.
pub open spec fn parse_keyring(s: Seq<u8>) -> Option<(Seq<u8>, Seq<u8>, Seq<u8>, Seq<u8>)> {
    match parse_field(s) {
        None => None,
        Some((user, r1)) => match parse_field(r1) {
            None => None,
            Some((key, r2)) => match parse_field(r2) {
                None => None,
                Some((static_key, r3)) => match parse_field(r3) {
                    None => None,
                    Some((static_salt, r4)) => if r4.len() == 0 {
                        Some((user, key, static_key, static_salt))
                    } else {
                        None
                    },
                },
            },
        },
    }
}

/// Parsed fields that reconstruct a usable keyring: the identity is text and
/// the session key fits the cipher.
pub open spec fn keyring_fields_ok(f: (Seq<u8>, Seq<u8>, Seq<u8>, Seq<u8>)) -> bool {
    &&& vstd::utf8::valid_utf8(f.0)
    &&& f.1.len() == 32
}

impl SharedKeyring {
    /// Every field fits the two-byte length prefix of the sealed form.
    pub open spec fn sealable(self) -> bool {
        &&& vstd::utf8::encode_utf8(self.user@).len() < 65536
        &&& self.key@.len() < 65536
        &&& self.static_key@.len() < 65536
        &&& self.static_salt@.len() < 65536
    }
}

/// Appends one length-prefixed field to the output.
fn push_field(out: &mut Vec<u8>, data: &[u8])
    requires
        data@.len() < 65536,
    ensures
        final(out)@ == old(out)@ + field_bytes(data@),
{
    let n = data.len();
    out.push((n % 256) as u8);
    out.push(((n / 256) % 256) as u8);
    out.extend_from_slice(data);
    assert(out@ =~= old(out)@ + field_bytes(data@));
}

/// Serializes a keyring into its length-prefixed byte form.
fn serialize_keyring(keyring: &SharedKeyring) -> (r: Vec<u8>)
    requires
        keyring.sealable(),
    ensures
        r@ == keyring_bytes(keyring.user@, keyring.key@, keyring.static_key@, keyring.static_salt@),
{
    let mut out: Vec<u8> = Vec::new();
    push_field(&mut out, keyring.user.as_str().as_bytes());
    push_field(&mut out, keyring.key.as_slice());
    push_field(&mut out, keyring.static_key.as_slice());
    push_field(&mut out, keyring.static_salt.as_slice());
    assert(out@ =~= keyring_bytes(
        keyring.user@,
        keyring.key@,
        keyring.static_key@,
        keyring.static_salt@,
    ));
    out
}

/// Reads one length-prefixed field at `pos`, returning it with the position
/// of whatever follows.
fn read_field(data: &[u8], pos: usize) -> (r: Option<(Vec<u8>, usize)>)
    requires
        pos <= data@.len(),
    ensures
        r matches Some((f, newpos)) ==> {
            &&& parse_field(data@.skip(pos as int)) matches Some(pr) && pr.0 == f@ && pr.1
                == data@.skip(newpos as int)
            &&& pos < newpos <= data@.len()
        },
        r is None ==> parse_field(data@.skip(pos as int)) is None,
{
    let ghost s = data@.skip(pos as int);
    if data.len() - pos < 2 {
        return None;
    }
    let n: usize = data[pos] as usize + 256 * (data[pos + 1] as usize);
    assert(s[0] == data@[pos as int] && s[1] == data@[pos as int + 1]);
    if data.len() - pos - 2 < n {
        return None;
    }
    let field_slice = vstd::slice::slice_subrange(data, pos + 2, pos + 2 + n);
    let f = vstd::slice::slice_to_vec(field_slice);
    let newpos = pos + 2 + n;
    proof {
        assert(f@ =~= s.subrange(2, 2 + n as int));
        assert(data@.skip(newpos as int) =~= s.skip(2 + n as int));
    }
    Some((f, newpos))
}

/// Rebuilds a keyring from its serialized bytes; fails on any malformed
/// structure, a non-text identity, or a key of the wrong width.
fn deserialize_keyring(data: &[u8]) -> (r: Option<SharedKeyring>)
    ensures
        r matches Some(k) ==> {
            &&& parse_keyring(data@) == Some(
                (
                    vstd::utf8::encode_utf8(k.user@),
                    k.key@,
                    k.static_key@,
                    k.static_salt@,
                ),
            )
            &&& k.wf()
        },
        r is Some <==> (parse_keyring(data@) matches Some(f) && keyring_fields_ok(f)),
{
    proof {
        assert(data@.skip(0) =~= data@);
    }
    let r0 = read_field(data, 0);
    match r0 {
        None => None,
        Some((user_bytes, p1)) => {
            match read_field(data, p1) {
                None => None,
                Some((key, p2)) => {
                    match read_field(data, p2) {
                        None => None,
                        Some((static_key, p3)) => {
                            match read_field(data, p3) {
                                None => None,
                                Some((static_salt, p4)) => {
                                    if p4 != data.len() {
                                        return None;
                                    }
                                    proof {
                                        assert(data@.skip(p4 as int) =~= Seq::<u8>::empty());
                                    }
                                    if key.len() != 32 {
                                        return None;
                                    }
                                    match try_utf8_to_string(user_bytes) {
                                        None => None,
                                        Some(user) => Some(
                                            SharedKeyring {
                                                user,
                                                key,
                                                static_key,
                                                static_salt,
                                            },
                                        ),
                                    }
                                },
                            }
                        },
                    }
                },
            }
        },
    }
}

/// Seals a keyring under a 32-byte derived secret: serializes its fields and
/// encrypts them with the authenticated cipher under a fresh nonce.
pub fn seal(keyring: &SharedKeyring, secret: &[u8]) -> (r: Result<Vec<u8>, CryptoError>)
    requires
        secret@.len() == 32,
        keyring.sealable(),
    ensures
        r matches Ok(c) ==> aead_open_of(secret@, c@) == Some(
            keyring_bytes(
                keyring.user@,
                keyring.key@,
                keyring.static_key@,
                keyring.static_salt@,
            ),
        ),
        r is Err ==> r == Err::<Vec<u8>, CryptoError>(CryptoError::UnsealError),
{
    let serialized = serialize_keyring(keyring);
    match aead_seal(secret, serialized.as_slice()) {
        Some(c) => Ok(c),
        None => Err(CryptoError::UnsealError),
    }
}

/// True when a sealed bundle opens under the secret and parses back into
/// usable keyring fields.
pub open spec fn unsealable(sealed: Seq<u8>, secret: Seq<u8>) -> bool {
    &&& aead_open_of(secret, sealed) matches Some(pt)
    &&& parse_keyring(aead_open_of(secret, sealed)->Some_0) matches Some(f)
    &&& keyring_fields_ok(parse_keyring(aead_open_of(secret, sealed)->Some_0)->Some_0)
}

/// Opens a sealed keyring under a 32-byte derived secret, failing with
/// `UnsealError` on a tag mismatch or a malformed serialized structure.
pub fn unseal(sealed: &[u8], secret: &[u8]) -> (r: Result<SharedKeyring, CryptoError>)
    requires
        secret@.len() == 32,
    ensures
        r is Ok <==> unsealable(sealed@, secret@),
        r matches Ok(k) ==> {
            &&& aead_open_of(secret@, sealed@) matches Some(pt) && parse_keyring(pt) == Some(
                (
                    vstd::utf8::encode_utf8(k.user@),
                    k.key@,
                    k.static_key@,
                    k.static_salt@,
                ),
            )
            &&& k.wf()
        },
        r is Err ==> r == Err::<SharedKeyring, CryptoError>(CryptoError::UnsealError),
{
    match aead_open(secret, sealed) {
        None => Err(CryptoError::UnsealError),
        Some(plaintext) => match deserialize_keyring(plaintext.as_slice()) {
            None => Err(CryptoError::UnsealError),
            Some(k) => Ok(k),
        },
    }
}

/// Parsing inverts serialization: the sealed byte form reads back to exactly
/// the fields it was built from.
pub proof fn lemma_parse_of_keyring_bytes(
    user: Seq<char>,
    key: Seq<u8>,
    static_key: Seq<u8>,
    static_salt: Seq<u8>,
)
    requires
        vstd::utf8::encode_utf8(user).len() < 65536,
        key.len() < 65536,
        static_key.len() < 65536,
        static_salt.len() < 65536,
    ensures
        parse_keyring(keyring_bytes(user, key, static_key, static_salt)) == Some(
            (vstd::utf8::encode_utf8(user), key, static_key, static_salt),
        ),
{
    let ub = vstd::utf8::encode_utf8(user);
    let s = keyring_bytes(user, key, static_key, static_salt);
    let r1 = field_bytes(key) + field_bytes(static_key) + field_bytes(static_salt);
    let r2 = field_bytes(static_key) + field_bytes(static_salt);
    let r3 = field_bytes(static_salt);
    let r4 = Seq::<u8>::empty();
    assert(s =~= field_bytes(ub) + r1);
    lemma_parse_field(ub, r1);
    assert(r1 =~= field_bytes(key) + r2);
    lemma_parse_field(key, r2);
    assert(r2 =~= field_bytes(static_key) + r3);
    lemma_parse_field(static_key, r3);
    assert(r3 =~= field_bytes(static_salt) + r4);
    lemma_parse_field(static_salt, r4);
}

/// Splitting one field off a serialized prefix yields the field and the rest.
proof fn lemma_parse_field(b: Seq<u8>, rest: Seq<u8>)
    requires
        b.len() < 65536,
    ensures
        parse_field(field_bytes(b) + rest) == Some((b, rest)),
{
    let s = field_bytes(b) + rest;
    let n = b.len() as int;
    vstd::arithmetic::div_mod::lemma_fundamental_div_mod(n, 256);
    assert(n / 256 < 256);
    vstd::arithmetic::div_mod::lemma_small_mod((n / 256) as nat, 256);
    assert(s[0] == (n % 256) as u8 && s[1] == ((n / 256) % 256) as u8);
    assert(s[0] as int + 256 * (s[1] as int) == n);
    assert(s.subrange(2, 2 + n) =~= b);
    assert(s.skip(2 + n) =~= rest);
}

/// Unsealing inverts sealing: fields parsed back from a keyring's serialized
/// form are the original fields, identity included.
pub proof fn lemma_seal_round_trip(
    user: Seq<char>,
    key: Seq<u8>,
    static_key: Seq<u8>,
    static_salt: Seq<u8>,
    user2: Seq<char>,
    key2: Seq<u8>,
    static_key2: Seq<u8>,
    static_salt2: Seq<u8>,
)
    requires
        vstd::utf8::encode_utf8(user).len() < 65536,
        key.len() < 65536,
        static_key.len() < 65536,
        static_salt.len() < 65536,
        parse_keyring(keyring_bytes(user, key, static_key, static_salt)) == Some(
            (vstd::utf8::encode_utf8(user2), key2, static_key2, static_salt2),
        ),
    ensures
        user2 == user,
        key2 == key,
        static_key2 == static_key,
        static_salt2 == static_salt,
{
    lemma_parse_of_keyring_bytes(user, key, static_key, static_salt);
    assert(vstd::utf8::encode_utf8(user2) == vstd::utf8::encode_utf8(user));
    vstd::utf8::encode_utf8_decode_utf8(user2);
    vstd::utf8::encode_utf8_decode_utf8(user);
}

/// The token-binding value of a session: the wide hash of the session id,
/// carried as emoji text. Binding tokens to this hash rather than to the raw
/// identifier keeps the identifier out of anything logged or cached.
pub open spec fn hashed_sid_bytes(session_id: Seq<char>) -> Seq<u8> {
    emoji::emoji_bytes(blake2b512_of(vstd::utf8::encode_utf8(session_id)))
}

/// The transient sealing secret of a session: the encoded session-id hash,
/// stretched through the wide hash once more and cut to cipher width.
pub open spec fn session_secret_model(session_id: Seq<char>) -> Seq<u8> {
    blake2b512_of(hashed_sid_bytes(session_id)).take(32)
}

/// Derives a session's token-binding value and sealing secret from its
/// identifier alone. Deterministic and total: any process holding the
/// session id derives the same pair.
pub fn session_binding(session_id: &str) -> (r: (String, Vec<u8>))
    ensures
        vstd::utf8::encode_utf8(r.0@) == hashed_sid_bytes(session_id@),
        r.1@ == session_secret_model(session_id@),
        r.1@.len() == 32,
{
    let digest = blake2b512(session_id.as_bytes());
    let sid = emoji::encode(digest.as_slice());
    let mut secret = blake2b512(sid.as_str().as_bytes());
    secret.truncate(32);
    assert(secret@ =~= session_secret_model(session_id@));
    (sid, secret)
}

} // verus!
