//! Signing and verifying arbitrary text: the signature covers the SHA-256
//! digest of the text's UTF-8 bytes.
use crate::crypto::{
    ed25519_accepts, ed25519_sign, ed25519_signature_of, ed25519_verify, hex_decode, hex_encode,
    hex_of, sha256, sha256_of, unhex,
};
use vstd::prelude::*;
use vstd::string::StringSliceAdditionalSpecFns;

verus! {

/// Why arbitrary-data signing or verification stopped.
#[derive(Debug, PartialEq, Eq, Structural)]
pub enum ArbitraryError {
    /// A key that is not 32 bytes of hex.
    InvalidKey,
    /// A digest that is not 32 bytes of hex.
    InvalidHash,
    /// A signature that is not 64 bytes of hex.
    InvalidSignature,
}

/// The hex digest of the text and the hex signature of that digest, or why not.
pub open spec fn sign_arbitrary_spec(signing_key: Seq<char>, data: Seq<u8>) -> Result<
    (Seq<char>, Seq<char>),
    ArbitraryError,
> {
    match unhex(signing_key) {
        Some(seed) => if seed.len() == 32 {
            Ok(
                (
                    hex_of(sha256_of(data)),
                    hex_of(ed25519_signature_of(seed, sha256_of(data))),
                ),
            )
        } else {
            Err(ArbitraryError::InvalidKey)
        },
        None => Err(ArbitraryError::InvalidKey),
    }
}

/// Signs the SHA-256 digest of `data` with the hex seed `signing_key`, and
/// returns the digest and the signature, both in lower-case hex.
pub fn sign_arbitrary(signing_key: &str, data: &str) -> (r: Result<(String, String), ArbitraryError>)
    ensures
        match r {
            Ok((h, s)) => sign_arbitrary_spec(signing_key@, data.spec_bytes()) == Ok::<
                (Seq<char>, Seq<char>),
                ArbitraryError,
            >((h@, s@)),
            Err(e) => sign_arbitrary_spec(signing_key@, data.spec_bytes()) == Err::<
                (Seq<char>, Seq<char>),
                ArbitraryError,
            >(e),
        },
{
    let seed = match hex_decode(signing_key) {
        Some(s) => s,
        None => return Err(ArbitraryError::InvalidKey),
    };
    if seed.len() != 32 {
        return Err(ArbitraryError::InvalidKey);
    }
    let digest = sha256(data.as_bytes());
    let sig = ed25519_sign(seed.as_slice(), digest.as_slice());
    Ok((hex_encode(digest.as_slice()), hex_encode(sig.as_slice())))
}

/// Whether the hex signature is accepted for the hex digest under the hex key,
/// or which argument is malformed.
pub open spec fn verify_arbitrary_spec(
    public_key: Seq<char>,
    signed_hash: Seq<char>,
    signature: Seq<char>,
) -> Result<bool, ArbitraryError> {
    match (unhex(public_key), unhex(signed_hash), unhex(signature)) {
        (Some(pk), Some(h), Some(sig)) => if pk.len() != 32 {
            Err(ArbitraryError::InvalidKey)
        } else if h.len() != 32 {
            Err(ArbitraryError::InvalidHash)
        } else if sig.len() != 64 {
            Err(ArbitraryError::InvalidSignature)
        } else {
            Ok(ed25519_accepts(pk, h, sig))
        },
        (None, _, _) => Err(ArbitraryError::InvalidKey),
        (_, None, _) => Err(ArbitraryError::InvalidHash),
        (_, _, None) => Err(ArbitraryError::InvalidSignature),
    }
}

/// Verifies a hex signature of a hex digest under a hex public key.
pub fn verify_arbitrary(public_key: &str, signed_hash: &str, signature: &str) -> (r: Result<
    bool,
    ArbitraryError,
>)
    ensures
        r == verify_arbitrary_spec(public_key@, signed_hash@, signature@),
{
    let pk = match hex_decode(public_key) {
        Some(b) => b,
        None => return Err(ArbitraryError::InvalidKey),
    };
    let h = match hex_decode(signed_hash) {
        Some(b) => b,
        None => return Err(ArbitraryError::InvalidHash),
    };
    let sig = match hex_decode(signature) {
        Some(b) => b,
        None => return Err(ArbitraryError::InvalidSignature),
    };
    if pk.len() != 32 {
        return Err(ArbitraryError::InvalidKey);
    }
    if h.len() != 32 {
        return Err(ArbitraryError::InvalidHash);
    }
    if sig.len() != 64 {
        return Err(ArbitraryError::InvalidSignature);
    }
    Ok(ed25519_verify(pk.as_slice(), h.as_slice(), sig.as_slice()))
}

} // verus!
