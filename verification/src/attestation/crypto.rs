//! The hashing, signing and hex calls that attestation makes.

use ed25519_dalek::{Signer, Verifier};
use sha2::Digest;
use vstd::prelude::*;

verus! {

/// The SHA-256 digest of `data`, as `sha2` computes it.
pub uninterp spec fn sha256_digest(data: Seq<u8>) -> Seq<u8>;

/// Whether `ed25519-dalek` accepts `signature` on `message` under the public
/// key encoded as `public_key`; a key that does not decode is refused.
pub uninterp spec fn ed25519_accepts(public_key: Seq<u8>, message: Seq<u8>, signature: Seq<u8>) -> bool;

/// Whether `public_key` decodes to an `ed25519-dalek` verifying key.
pub uninterp spec fn ed25519_key_decodes(public_key: Seq<u8>) -> bool;

/// The signature that `ed25519-dalek` makes on `message` with the signing
/// key whose secret is the 32 bytes `secret` (Ed25519 signing is
/// deterministic).
pub uninterp spec fn ed25519_signature(secret: Seq<u8>, message: Seq<u8>) -> Seq<u8>;

/// The encoded verifying key of the signing key whose secret is the 32
/// bytes `secret`.
pub uninterp spec fn ed25519_public_key(secret: Seq<u8>) -> Seq<u8>;

/// The value of an ASCII hex digit.
pub open spec fn hex_value(b: u8) -> int {
    if 48 <= b <= 57 {
        b - 48
    } else if 65 <= b <= 70 {
        b - 65 + 10
    } else {
        b - 97 + 10
    }
}

/// Whether `b` is an ASCII hex digit, in either case.
pub open spec fn is_hex_digit(b: u8) -> bool {
    (48 <= b <= 57) || (65 <= b <= 70) || (97 <= b <= 102)
}

/// Whether `text` is hex: an even number of hex digits.
pub open spec fn is_hex_text(text: Seq<u8>) -> bool {
    text.len() % 2 == 0 && forall|i: int| 0 <= i < text.len() ==> is_hex_digit(#[trigger] text[i])
}

/// The bytes that hex `text` spells, two digits to a byte.
pub open spec fn hex_decoded(text: Seq<u8>) -> Seq<u8> {
    Seq::new(text.len() / 2, |i: int| (hex_value(text[2 * i]) * 16 + hex_value(text[2 * i + 1])) as u8)
}

/// The lower-case hex digit of `v`, below sixteen.
pub open spec fn hex_digit(v: int) -> char {
    if v < 10 { (48 + v) as char } else { (97 + v - 10) as char }
}

/// `bytes` in lower-case hex, two digits to a byte.
pub open spec fn hex_encoded(bytes: Seq<u8>) -> Seq<char> {
    Seq::new(2 * bytes.len(), |i: int| if i % 2 == 0 { hex_digit(bytes[i / 2] as int / 16) } else { hex_digit(bytes[i / 2] as int % 16) })
}

/// Hex text written by `hex_encoded` reads back as the bytes it was written
/// from.
pub proof fn lemma_hex_round_trip(bytes: Seq<u8>)
    ensures
        is_hex_text(vstd::utf8::encode_utf8(hex_encoded(bytes))),
        hex_decoded(vstd::utf8::encode_utf8(hex_encoded(bytes))) == bytes,
{
    let cs = hex_encoded(bytes);
    assert forall|i: int| 0 <= i < cs.len() implies (cs[i] as u32) < 128
        && is_hex_digit(cs[i] as u8)
        && hex_value(cs[i] as u8) == (if i % 2 == 0 { bytes[i / 2] as int / 16 } else { bytes[i / 2] as int % 16 }) by {
        let v = if i % 2 == 0 { bytes[i / 2] as int / 16 } else { bytes[i / 2] as int % 16 };
        assert(0 <= v < 16);
        assert(cs[i] == hex_digit(v));
    }
    assert(vstd::utf8::is_ascii_chars(cs));
    vstd::utf8::is_ascii_chars_encode_utf8(cs);
    let text = vstd::utf8::encode_utf8(cs);
    assert forall|i: int| 0 <= i < text.len() implies is_hex_digit(#[trigger] text[i]) by {
        assert(cs[i] as u8 == text[i]);
    }
    assert(text.len() % 2 == 0);
    let d = hex_decoded(text);
    assert forall|i: int| 0 <= i < bytes.len() implies d[i] == bytes[i] by {
        assert(cs[2 * i] as u8 == text[2 * i]);
        assert(cs[2 * i + 1] as u8 == text[2 * i + 1]);
        assert((2 * i) % 2 == 0 && (2 * i) / 2 == i);
        assert((2 * i + 1) % 2 == 1 && (2 * i + 1) / 2 == i);
        assert((bytes[i] as int / 16) * 16 + bytes[i] as int % 16 == bytes[i]);
    }
    assert(d =~= bytes);
}

/// `sha2::Sha256::digest`: the 32-byte SHA-256 digest of `data`. Feeding the
/// hasher several pieces gives the digest of their concatenation, so callers
/// frame their message first.
#[verifier::external_body]
pub(crate) fn sha256(data: &[u8]) -> (d: Vec<u8>)
    ensures
        d@ == sha256_digest(data@),
        d@.len() == 32,
{
    sha2::Sha256::digest(data).to_vec()
}

/// `SigningKey::from_bytes`, `SigningKey::verifying_key` and
/// `VerifyingKey::to_bytes` of `ed25519-dalek`: the encoded verifying key
/// of the signing key whose secret is `secret`. The encoding is of a valid
/// curve point, so it decodes back to a key.
#[verifier::external_body]
pub(crate) fn ed25519_public_of(secret: &[u8; 32]) -> (p: [u8; 32])
    ensures
        p@ == ed25519_public_key(secret@),
        ed25519_key_decodes(p@),
{
    ed25519_dalek::SigningKey::from_bytes(secret).verifying_key().to_bytes()
}

/// `SigningKey::from_bytes` and `Signer::sign` of `ed25519-dalek`: the 64
/// bytes of the signature on `message` made with the key of the 32 bytes
/// `secret`. Such a signature is accepted on `message` under that key's
/// verifying key, as the scheme promises.
#[verifier::external_body]
pub(crate) fn ed25519_sign(secret: &[u8; 32], message: &[u8]) -> (s: Vec<u8>)
    ensures
        s@ == ed25519_signature(secret@, message@),
        s@.len() == 64,
        ed25519_accepts(ed25519_public_key(secret@), message@, s@),
{
    ed25519_dalek::SigningKey::from_bytes(secret).sign(message).to_bytes().to_vec()
}

/// `VerifyingKey::from_bytes` of `ed25519-dalek`, asked only whether the
/// 32 bytes decode to a key.
#[verifier::external_body]
pub(crate) fn ed25519_key_valid(public_key: &[u8]) -> (b: bool)
    requires
        public_key@.len() == 32,
    ensures
        b == ed25519_key_decodes(public_key@),
{
    let bytes: [u8; 32] = public_key.try_into().unwrap();
    ed25519_dalek::VerifyingKey::from_bytes(&bytes).is_ok()
}

/// `VerifyingKey::from_bytes`, `Signature::from_bytes` and `Verifier::verify`
/// of `ed25519-dalek`: whether the 64-byte `signature` on `message` checks
/// out under the 32-byte `public_key`.
#[verifier::external_body]
pub(crate) fn ed25519_verify(public_key: &[u8], message: &[u8], signature: &[u8]) -> (b: bool)
    requires
        public_key@.len() == 32,
        signature@.len() == 64,
    ensures
        b == ed25519_accepts(public_key@, message@, signature@),
{
    let key: [u8; 32] = public_key.try_into().unwrap();
    let sig: [u8; 64] = signature.try_into().unwrap();
    match ed25519_dalek::VerifyingKey::from_bytes(&key) {
        Ok(k) => k.verify(message, &ed25519_dalek::Signature::from_bytes(&sig)).is_ok(),
        Err(_) => false,
    }
}

/// `hex::decode` on the bytes of `text`: the bytes it spells when it is
/// hex, else the message of the error.
#[verifier::external_body]
pub(crate) fn hex_decode(text: &str) -> (r: Result<Vec<u8>, String>)
    ensures
        match r {
            Ok(b) => is_hex_text(vstd::utf8::encode_utf8(text@)) && b@ == hex_decoded(vstd::utf8::encode_utf8(text@)),
            Err(_) => !is_hex_text(vstd::utf8::encode_utf8(text@)),
        },
{
    match hex::decode(text) {
        Ok(b) => Ok(b),
        Err(e) => Err(e.to_string()),
    }
}

/// `hex::encode`: `bytes` in lower-case hex.
#[verifier::external_body]
pub(crate) fn hex_encode(bytes: &[u8]) -> (s: String)
    ensures
        s@ == hex_encoded(bytes@),
{
    hex::encode(bytes)
}

/// `SigningKey::generate` over the operating system's randomness and
/// `SigningKey::to_bytes`: the secret of a fresh signing key. Nothing is
/// promised of the bytes, which are random.
#[verifier::external_body]
pub(crate) fn generate_secret() -> (secret: [u8; 32])
{
    ed25519_dalek::SigningKey::generate(&mut rand::rngs::OsRng).to_bytes()
}

} // verus!
