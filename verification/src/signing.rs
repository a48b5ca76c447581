//! ECDSA over P-256, as the `p256` crate implements it, on keys and
//! signatures held as plain bytes.

use p256::ecdsa::signature::{Signer, Verifier};
use vstd::prelude::*;

verus! {

/// The signature that the `p256` crate gives for `message` under the secret
/// scalar `key`, as the 64 bytes `r || s`; `None` where the crate rejects the
/// key or fails to sign. Signing is deterministic (RFC 6979), so this is a
/// function of the key and the message alone.
pub uninterp spec fn ecdsa_signature(key: Seq<u8>, message: Seq<u8>) -> Option<Seq<u8>>;

/// Whether the `p256` crate accepts `signature` (64 bytes `r || s`) for
/// `message` under the SEC1-encoded public key `key`. False where the key or
/// the signature does not parse.
pub uninterp spec fn ecdsa_verifies(key: Seq<u8>, message: Seq<u8>, signature: Seq<u8>) -> bool;

/// The SEC1 encoding of the public key that belongs to the secret scalar
/// `key`; `None` where the `p256` crate rejects the key.
pub uninterp spec fn ecdsa_public_key(key: Seq<u8>) -> Option<Seq<u8>>;

/// The contents of an optional byte vector.
pub open spec fn bytes_of(value: Option<Vec<u8>>) -> Option<Seq<u8>> {
    match value {
        Some(bytes) => Some(bytes@),
        None => None,
    }
}

/// Parses `key` with `p256::ecdsa::SigningKey::from_slice`, signs `message`
/// with `Signer::try_sign` and serialises the signature with `to_vec`.
/// Trusted: the result is the crate's signature for this key and message.
/// Trusted too, as the correctness of ECDSA: a signature that the crate
/// produces is one that it accepts for the same message under the public key
/// of the same secret. The documentation of `p256::ecdsa` shows that round
/// trip, from `sign` to `VerifyingKey::from` and `verify`.
#[verifier::external_body]
pub(crate) fn ecdsa_sign(key: &[u8], message: &[u8]) -> (signature: Option<Vec<u8>>)
    ensures
        bytes_of(signature) == ecdsa_signature(key@, message@),
        signature matches Some(bytes) ==> (ecdsa_public_key(key@) matches Some(public)
            && ecdsa_verifies(public, message@, bytes@)),
{
    let key = p256::ecdsa::SigningKey::from_slice(key).ok()?;
    let signature: p256::ecdsa::Signature = key.try_sign(message).ok()?;
    Some(signature.to_vec())
}

/// Parses `key` with `p256::ecdsa::VerifyingKey::from_sec1_bytes` and
/// `signature` with `p256::ecdsa::Signature::from_slice`, then calls
/// `Verifier::verify`. Trusted: the result is the crate's verdict, false
/// where either does not parse.
#[verifier::external_body]
pub(crate) fn ecdsa_verify(key: &[u8], message: &[u8], signature: &[u8]) -> (accepted: bool)
    ensures
        accepted == ecdsa_verifies(key@, message@, signature@),
{
    let key = p256::ecdsa::VerifyingKey::from_sec1_bytes(key);
    let signature = p256::ecdsa::Signature::from_slice(signature);
    match (key, signature) {
        (Ok(key), Ok(signature)) => key.verify(message, &signature).is_ok(),
        _ => false,
    }
}

/// Parses `key` with `p256::ecdsa::SigningKey::from_slice` and serialises its
/// `verifying_key` with `to_sec1_bytes`. Trusted: the result is the crate's
/// public key for this secret.
#[verifier::external_body]
pub(crate) fn ecdsa_public(key: &[u8]) -> (public: Option<Vec<u8>>)
    ensures
        bytes_of(public) == ecdsa_public_key(key@),
{
    let key = p256::ecdsa::SigningKey::from_slice(key).ok()?;
    Some(key.verifying_key().to_sec1_bytes().into_vec())
}

/// A secret signing key: the big-endian bytes of a P-256 scalar.
#[derive(Clone, Debug)]
pub struct SigningKey {
    pub bytes: Vec<u8>,
}

/// A public verifying key: the SEC1 encoding of a P-256 point.
#[derive(Clone, Debug)]
pub struct VerifyingKey {
    pub bytes: Vec<u8>,
}

/// An ECDSA signature: the 64 bytes `r || s`.
#[derive(Clone, Debug)]
pub struct Signature {
    pub bytes: Vec<u8>,
}

impl View for SigningKey {
    type V = Seq<u8>;

    open spec fn view(&self) -> Seq<u8> {
        self.bytes@
    }
}

impl View for VerifyingKey {
    type V = Seq<u8>;

    open spec fn view(&self) -> Seq<u8> {
        self.bytes@
    }
}

impl View for Signature {
    type V = Seq<u8>;

    open spec fn view(&self) -> Seq<u8> {
        self.bytes@
    }
}

/// The contents of an optional signature.
pub open spec fn signature_bytes(signature: Option<Signature>) -> Option<Seq<u8>> {
    match signature {
        Some(s) => Some(s@),
        None => None,
    }
}

/// The contents of an optional verifying key.
pub open spec fn verifying_key_bytes(key: Option<VerifyingKey>) -> Option<Seq<u8>> {
    match key {
        Some(k) => Some(k@),
        None => None,
    }
}

impl SigningKey {
    /// A signing key from the bytes of its scalar.
    pub fn from_bytes(bytes: Vec<u8>) -> (key: Self)
        ensures
            key@ == bytes@,
    {
        SigningKey { bytes }
    }

    /// The verifying key that belongs to this signing key, if the key is one
    /// that P-256 admits.
    pub fn verifying_key(&self) -> (public: Option<VerifyingKey>)
        ensures
            verifying_key_bytes(public) == ecdsa_public_key(self@),
    {
        match ecdsa_public(self.bytes.as_slice()) {
            Some(bytes) => Some(VerifyingKey { bytes }),
            None => None,
        }
    }

    /// Signs `message`. A signature that comes back is accepted for
    /// `message` under this key's verifying key.
    pub fn sign(&self, message: &[u8]) -> (signature: Option<Signature>)
        ensures
            signature_bytes(signature) == ecdsa_signature(self@, message@),
            signature matches Some(s) ==> (ecdsa_public_key(self@) matches Some(public)
                && ecdsa_verifies(public, message@, s@)),
    {
        match ecdsa_sign(self.bytes.as_slice(), message) {
            Some(bytes) => Some(Signature { bytes }),
            None => None,
        }
    }
}

impl VerifyingKey {
    /// A verifying key from its SEC1 encoding.
    pub fn from_bytes(bytes: Vec<u8>) -> (key: Self)
        ensures
            key@ == bytes@,
    {
        VerifyingKey { bytes }
    }

    /// Whether `signature` is a valid signature of `message` under this key.
    pub fn verify(&self, message: &[u8], signature: &Signature) -> (accepted: bool)
        ensures
            accepted == ecdsa_verifies(self@, message@, signature@),
    {
        ecdsa_verify(self.bytes.as_slice(), message, signature.bytes.as_slice())
    }
}

impl Signature {
    /// A signature from its 64 bytes.
    pub fn from_bytes(bytes: Vec<u8>) -> (signature: Self)
        ensures
            signature@ == bytes@,
    {
        Signature { bytes }
    }
}

} // verus!
