//! The signature schemes that records may be signed with, and the hashes that
//! bind keys to addresses and payloads to signatures.
use bitcoin::secp256k1::{ecdsa::Signature, Message, PublicKey, Secp256k1};
use vstd::prelude::*;

verus! {

/// Failures of the cryptographic steps of validation.
#[derive(Debug, Clone, Copy, PartialEq, Eq, Structural)]
pub enum CryptoError {
    PubkeyDeserialization,
    SigDeserialization,
    Verification,
}

/// The text that describes each cryptographic failure.
pub open spec fn crypto_message(e: CryptoError) -> &'static str {
    match e {
        CryptoError::PubkeyDeserialization => "public key deserialization failed",
        CryptoError::SigDeserialization => "signature deserialization failed",
        CryptoError::Verification => "signature verification failed",
    }
}

impl CryptoError {
    pub fn message(&self) -> (r: &'static str)
        ensures
            r == crypto_message(*self),
    {
        match self {
            CryptoError::PubkeyDeserialization => "public key deserialization failed",
            CryptoError::SigDeserialization => "signature deserialization failed",
            CryptoError::Verification => "signature verification failed",
        }
    }
}

/// SHA-256 of a byte string.
pub uninterp spec fn sha256_of(b: Seq<u8>) -> Seq<u8>;

/// RIPEMD-160 of the SHA-256 of a byte string.
pub uninterp spec fn hash160_of(b: Seq<u8>) -> Seq<u8>;

/// The compressed form of the secp256k1 public key that `b` encodes, if any.
pub uninterp spec fn ecdsa_key_of(b: Seq<u8>) -> Option<Seq<u8>>;

/// The compact form of the DER-encoded ECDSA signature `b`, if it is one.
pub uninterp spec fn ecdsa_sig_of(b: Seq<u8>) -> Option<Seq<u8>>;

/// Whether the compact signature `sig` verifies the 32-byte `digest` under the
/// compressed key `key`.
pub uninterp spec fn ecdsa_verifies(digest: Seq<u8>, key: Seq<u8>, sig: Seq<u8>) -> bool;

/// Relies on bitcoin_hashes::sha256::Hash::hash: the 32-byte digest of `b`.
#[verifier::external_body]
pub(crate) fn sha256(b: &[u8]) -> (r: Vec<u8>)
    ensures
        r@ == sha256_of(b@),
        r@.len() == 32,
{
    bitcoin_hashes::sha256::Hash::hash(b).to_byte_array().to_vec()
}

/// Relies on bitcoin_hashes::hash160::Hash::hash: the 20-byte digest of `b`.
#[verifier::external_body]
pub(crate) fn hash160(b: &[u8]) -> (r: Vec<u8>)
    ensures
        r@ == hash160_of(b@),
        r@.len() == 20,
{
    bitcoin_hashes::hash160::Hash::hash(b).to_byte_array().to_vec()
}

/// Relies on secp256k1's PublicKey::from_slice, which accepts the 33-byte
/// compressed and 65-byte uncompressed encodings of a point on the curve, and
/// PublicKey::serialize, which gives the 33-byte compressed form.
#[verifier::external_body]
fn parse_ecdsa_key(b: &[u8]) -> (r: Option<Vec<u8>>)
    ensures
        match r {
            Some(k) => ecdsa_key_of(b@) == Some(k@) && k@.len() == 33,
            None => ecdsa_key_of(b@) is None,
        },
{
    PublicKey::from_slice(b).ok().map(|k| k.serialize().to_vec())
}

/// Relies on secp256k1's ecdsa::Signature::from_der, which parses a DER
/// signature, and Signature::serialize_compact, which gives its 64-byte form.
#[verifier::external_body]
fn parse_ecdsa_sig(b: &[u8]) -> (r: Option<Vec<u8>>)
    ensures
        match r {
            Some(s) => ecdsa_sig_of(b@) == Some(s@) && s@.len() == 64,
            None => ecdsa_sig_of(b@) is None,
        },
{
    Signature::from_der(b).ok().map(|s| s.serialize_compact().to_vec())
}

/// Relies on secp256k1's Secp256k1::verify_ecdsa: checks a compact signature over
/// a 32-byte digest under a compressed key, both given back in the outside
/// crate's own types.
#[verifier::external_body]
fn check_ecdsa(digest: &[u8], key: &[u8], sig: &[u8]) -> (r: bool)
    requires
        digest@.len() == 32,
        key@.len() == 33,
        sig@.len() == 64,
    ensures
        r == ecdsa_verifies(digest@, key@, sig@),
{
    match (Message::from_digest_slice(digest), PublicKey::from_slice(key), Signature::from_compact(sig)) {
        (Ok(m), Ok(k), Ok(s)) => Secp256k1::verification_only().verify_ecdsa(&m, &s, &k).is_ok(),
        _ => false,
    }
}

/// Identifier of ECDSA over secp256k1 in a record's `scheme` field.
pub const ECDSA_SCHEME: i32 = 1;

/// The signature schemes that records may use.
#[derive(Debug, Clone, Copy, PartialEq, Eq, Structural)]
pub enum SigScheme {
    /// ECDSA over secp256k1: keys in SEC1 encoding, signatures in DER.
    Ecdsa,
}

impl SigScheme {
    /// The scheme that a record's identifier selects; `None` for an unknown one.
    pub fn from_id(id: i32) -> (r: Option<SigScheme>)
        ensures
            r == (if id == ECDSA_SCHEME { Some(SigScheme::Ecdsa) } else { None::<SigScheme> }),
    {
        if id == ECDSA_SCHEME {
            Some(SigScheme::Ecdsa)
        } else {
            None
        }
    }

    pub open spec fn key_of(self, b: Seq<u8>) -> Option<Seq<u8>> {
        match self {
            SigScheme::Ecdsa => ecdsa_key_of(b),
        }
    }

    pub open spec fn sig_of(self, b: Seq<u8>) -> Option<Seq<u8>> {
        match self {
            SigScheme::Ecdsa => ecdsa_sig_of(b),
        }
    }

    pub open spec fn verifies(self, digest: Seq<u8>, key: Seq<u8>, sig: Seq<u8>) -> bool {
        match self {
            SigScheme::Ecdsa => ecdsa_verifies(digest, key, sig),
        }
    }

    /// The form in which a decoded key is handed to `to_raw_address` and `verify`.
    pub open spec fn key_form(self, k: Seq<u8>) -> bool {
        match self {
            SigScheme::Ecdsa => k.len() == 33,
        }
    }

    pub open spec fn sig_form(self, s: Seq<u8>) -> bool {
        match self {
            SigScheme::Ecdsa => s.len() == 64,
        }
    }

    /// Deserializes a public key of this scheme.
    pub fn deserialize_key(self, b: &[u8]) -> (r: Result<Vec<u8>, CryptoError>)
        ensures
            match self.key_of(b@) {
                Some(k) => r matches Ok(x) && x@ == k && self.key_form(k),
                None => r == Err::<Vec<u8>, CryptoError>(CryptoError::PubkeyDeserialization),
            },
    {
        match self {
            SigScheme::Ecdsa => match parse_ecdsa_key(b) {
                Some(k) => Ok(k),
                None => Err(CryptoError::PubkeyDeserialization),
            },
        }
    }

    /// Deserializes a signature of this scheme.
    pub fn deserialize_sig(self, b: &[u8]) -> (r: Result<Vec<u8>, CryptoError>)
        ensures
            match self.sig_of(b@) {
                Some(s) => r matches Ok(x) && x@ == s && self.sig_form(s),
                None => r == Err::<Vec<u8>, CryptoError>(CryptoError::SigDeserialization),
            },
    {
        match self {
            SigScheme::Ecdsa => match parse_ecdsa_sig(b) {
                Some(s) => Ok(s),
                None => Err(CryptoError::SigDeserialization),
            },
        }
    }

    /// The address body of a decoded key: the hash160 of its compressed form.
    pub fn to_raw_address(self, key: &[u8]) -> (r: Vec<u8>)
        ensures
            r@ == hash160_of(key@),
    {
        hash160(key)
    }

    /// Verifies a decoded signature over a 32-byte digest under a decoded key.
    pub fn verify(self, digest: &[u8], key: &[u8], sig: &[u8]) -> (r: Result<(), CryptoError>)
        requires
            digest@.len() == 32,
            self.key_form(key@),
            self.sig_form(sig@),
        ensures
            r == (if self.verifies(digest@, key@, sig@) {
                Ok::<(), CryptoError>(())
            } else {
                Err(CryptoError::Verification)
            }),
    {
        match self {
            SigScheme::Ecdsa => if check_ecdsa(digest, key, sig) {
                Ok(())
            } else {
                Err(CryptoError::Verification)
            },
        }
    }
}

} // verus!
