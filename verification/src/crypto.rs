//! Hex decoding and the two signature checks webhooks rely on.
use vstd::prelude::*;
use vstd::string::*;

verus! {

/// The value of an ASCII hexadecimal digit (either case).
pub open spec fn hex_value(b: u8) -> Option<u8> {
    if 48 <= b <= 57 {
        Some((b - 48) as u8)
    } else if 97 <= b <= 102 {
        Some((b - 97 + 10) as u8)
    } else if 65 <= b <= 70 {
        Some((b - 65 + 10) as u8)
    } else {
        None
    }
}

/// Every byte is a hexadecimal digit.
pub open spec fn all_hex(bs: Seq<u8>) -> bool {
    forall|i: int| 0 <= i < bs.len() ==> (#[trigger] hex_value(bs[i])) is Some
}

/// What `hex::decode` returns: pairs of digits become bytes (high digit first);
/// an odd length or a non-digit is an error.
pub open spec fn hex_decoded(bs: Seq<u8>) -> Option<Seq<u8>> {
    if bs.len() % 2 == 0 && all_hex(bs) {
        Some(
            Seq::new(
                bs.len() / 2,
                |i: int|
                    (hex_value(bs[2 * i]).unwrap() * 16 + hex_value(bs[2 * i + 1]).unwrap()) as u8,
            ),
        )
    } else {
        None
    }
}

/// Decodes hexadecimal text with `hex::decode` (which reads the text's UTF-8
/// bytes), mapping its error to `None`.
#[verifier::external_body]
pub(crate) fn hex_decode(s: &str) -> (r: Option<Vec<u8>>)
    ensures
        match r {
            Some(v) => hex_decoded(s.spec_bytes()) == Some(v@),
            None => hex_decoded(s.spec_bytes()) is None,
        },
{
    match hex::decode(s) {
        Ok(v) => Some(v),
        Err(_) => None,
    }
}

/// The HMAC-SHA256 tag of a message under a key.
pub uninterp spec fn hmac_sha256_tag(key: Seq<u8>, msg: Seq<u8>) -> Seq<u8>;

/// Computes HMAC-SHA256 of `msg` under `key` (`Hmac::<Sha256>::new_from_slice`,
/// `update`) and compares it with `tag` in constant time (`verify_slice`).
/// `new_from_slice` accepts keys of any length for HMAC, and `verify_slice`
/// succeeds exactly when the tag has the 32-byte output length and equals the
/// computed tag. The hash itself is left to the name `hmac_sha256_tag`.
#[verifier::external_body]
pub(crate) fn hmac_sha256_matches(key: &[u8], msg: &[u8], tag: &[u8]) -> (r: bool)
    ensures
        r == (tag@.len() == 32 && tag@ == hmac_sha256_tag(key@, msg@)),
{
    match <hmac::Hmac<sha2::Sha256> as hmac::Mac>::new_from_slice(key) {
        Ok(mut mac) => {
            hmac::Mac::update(&mut mac, msg);
            hmac::Mac::verify_slice(mac, tag).is_ok()
        },
        Err(_) => false,
    }
}

/// Whether 32 bytes decode to an Ed25519 public key (`VerifyingKey::from_bytes`).
pub uninterp spec fn ed25519_key_valid(key: Seq<u8>) -> bool;

/// Whether the signature is valid for the message under the key (`Verifier::verify`).
pub uninterp spec fn ed25519_verifies(key: Seq<u8>, msg: Seq<u8>, sig: Seq<u8>) -> bool;

/// Whether the 32 bytes decode to a public key (`VerifyingKey::from_bytes`).
#[verifier::external_body]
pub(crate) fn ed25519_key_decodes(key: &[u8]) -> (r: bool)
    requires
        key@.len() == 32,
    ensures
        r == ed25519_key_valid(key@),
{
    match <[u8; 32]>::try_from(key) {
        Ok(a) => ed25519_dalek::VerifyingKey::from_bytes(&a).is_ok(),
        Err(_) => false,
    }
}

/// Decodes the key with `VerifyingKey::from_bytes` and checks the 64-byte
/// signature over the message with `Verifier::verify`.
#[verifier::external_body]
pub(crate) fn ed25519_signature_valid(key: &[u8], msg: &[u8], sig: &[u8]) -> (r: bool)
    requires
        key@.len() == 32,
        sig@.len() == 64,
        ed25519_key_valid(key@),
    ensures
        r == ed25519_verifies(key@, msg@, sig@),
{
    let arrays: (Result<[u8; 32], _>, Result<[u8; 64], _>) = (key.try_into(), sig.try_into());
    match arrays {
        (Ok(k), Ok(s)) => match ed25519_dalek::VerifyingKey::from_bytes(&k) {
            Ok(vk) => ed25519_dalek::Verifier::verify(&vk, msg, &ed25519_dalek::Signature::from_bytes(&s)).is_ok(),
            Err(_) => false,
        },
        _ => false,
    }
}

} // verus!
