//! The validation protocol that every write passes: the record's key must hash
//! to the address it is filed under, and its signature must verify the digest of
//! its exact payload bytes.
use vstd::prelude::*;

use crate::crypto::{sha256, sha256_of, SigScheme, CryptoError, ECDSA_SCHEME};
use crate::errors::ValidationError;
use crate::model::{Address, AddressMetadata, MetadataModel};

verus! {

/// The scheme that a record's identifier selects, as a spec value.
pub open spec fn scheme_of(id: i32) -> Option<SigScheme> {
    if id == ECDSA_SCHEME {
        Some(SigScheme::Ecdsa)
    } else {
        None
    }
}

/// The outcome of validating record `m` against address body `addr`, step by
/// step, stopping at the first failure.
pub open spec fn validation(addr: Seq<u8>, m: MetadataModel) -> Result<(), ValidationError> {
    match scheme_of(m.scheme) {
        None => Err(ValidationError::KeyType),
        Some(scheme) => match scheme.key_of(m.pub_key) {
            None => Err(ValidationError::Crypto(CryptoError::PubkeyDeserialization)),
            Some(key) => if crate::crypto::hash160_of(key) != addr {
                Err(ValidationError::Preimage)
            } else if m.serialized_payload.len() == 0 {
                Err(ValidationError::EmptyPayload)
            } else {
                match scheme.sig_of(m.signature) {
                    None => Err(ValidationError::Crypto(CryptoError::SigDeserialization)),
                    Some(sig) => if scheme.verifies(sha256_of(m.serialized_payload), key, sig) {
                        Ok(())
                    } else {
                        Err(ValidationError::Crypto(CryptoError::Verification))
                    },
                }
            },
        },
    }
}

/// Checks that `metadata` was authored by the owner of `addr` and is well formed.
pub fn validate(addr: &Address, metadata: &AddressMetadata) -> (r: Result<(), ValidationError>)
    ensures
        r == validation(addr.body@, metadata@),
{
    let scheme = match SigScheme::from_id(metadata.scheme) {
        Some(s) => s,
        None => return Err(ValidationError::KeyType),
    };
    let key = match scheme.deserialize_key(metadata.pub_key.as_slice()) {
        Ok(k) => k,
        Err(e) => return Err(ValidationError::Crypto(e)),
    };
    let meta_addr = scheme.to_raw_address(key.as_slice());
    if !bytes_eq(meta_addr.as_slice(), addr.as_body()) {
        return Err(ValidationError::Preimage);
    }
    if metadata.serialized_payload.len() == 0 {
        return Err(ValidationError::EmptyPayload);
    }
    let digest = sha256(metadata.serialized_payload.as_slice());
    let sig = match scheme.deserialize_sig(metadata.signature.as_slice()) {
        Ok(s) => s,
        Err(e) => return Err(ValidationError::Crypto(e)),
    };
    match scheme.verify(digest.as_slice(), key.as_slice(), sig.as_slice()) {
        Ok(()) => Ok(()),
        Err(e) => Err(ValidationError::Crypto(e)),
    }
}

/// Byte-for-byte equality of two strings of bytes.
pub fn bytes_eq(a: &[u8], b: &[u8]) -> (r: bool)
    ensures
        r == (a@ == b@),
{
    if a.len() != b.len() {
        return false;
    }
    let mut i: usize = 0;
    while i < a.len()
        invariant
            i <= a.len() == b.len(),
            a@.subrange(0, i as int) == b@.subrange(0, i as int),
        decreases a.len() - i,
    {
        if a[i] != b[i] {
            assert(a@[i as int] != b@[i as int]);
            return false;
        }
        assert(a@.subrange(0, i + 1) =~= a@.subrange(0, i as int).push(a@[i as int]));
        assert(b@.subrange(0, i + 1) =~= b@.subrange(0, i as int).push(b@[i as int]));
        i = i + 1;
    }
    assert(a@ =~= a@.subrange(0, i as int));
    assert(b@ =~= b@.subrange(0, i as int));
    true
}

/// A record whose key decodes is refused with a preimage error under the
/// address of any other key whose address body differs from its own.
pub proof fn lemma_preimage(other_key: Seq<u8>, m: MetadataModel)
    requires
        scheme_of(m.scheme) matches Some(s) && s.key_of(m.pub_key) matches Some(k)
            && crate::crypto::hash160_of(k) != crate::crypto::hash160_of(other_key),
    ensures
        validation(crate::crypto::hash160_of(other_key), m) == Err::<(), ValidationError>(
            ValidationError::Preimage,
        ),
{
}

/// Once the scheme is known, the key decodes and hashes to the address, the
/// payload is present and the signature decodes, validation succeeds exactly
/// when the signature verifies the SHA-256 digest of the payload bytes under the
/// key; otherwise it fails with a verification error.
pub proof fn lemma_signature(addr: Seq<u8>, m: MetadataModel)
    requires
        scheme_of(m.scheme) matches Some(s) && s.key_of(m.pub_key) matches Some(k)
            && crate::crypto::hash160_of(k) == addr && s.sig_of(m.signature) matches Some(_),
        m.serialized_payload.len() > 0,
    ensures
        ({
            let s = scheme_of(m.scheme)->Some_0;
            let k = s.key_of(m.pub_key)->Some_0;
            let sig = s.sig_of(m.signature)->Some_0;
            &&& validation(addr, m) is Ok <==> s.verifies(sha256_of(m.serialized_payload), k, sig)
            &&& validation(addr, m) is Err ==> validation(addr, m) == Err::<(), ValidationError>(
                ValidationError::Crypto(CryptoError::Verification),
            )
        }),
{
}

} // verus!
