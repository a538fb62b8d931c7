//! Error kinds of validation and of the service, and the response class each
//! maps to.
use vstd::prelude::*;

use crate::crypto::{crypto_message, CryptoError};

verus! {

/// Why a record was rejected.
#[derive(Debug, Clone, Copy, PartialEq, Eq, Structural)]
pub enum ValidationError {
    /// The record names a signature scheme that is not supported.
    KeyType,
    /// The key does not hash to the address the record is filed under.
    Preimage,
    EmptyPayload,
    Outdated,
    ExpiredTTL,
    Crypto(CryptoError),
}

/// The text that describes each rejection.
pub open spec fn validation_message(e: ValidationError) -> &'static str {
    match e {
        ValidationError::KeyType => "bad key type",
        ValidationError::Preimage => "digest mismatch",
        ValidationError::EmptyPayload => "empty payload",
        ValidationError::Outdated => "metadata is outdated",
        ValidationError::ExpiredTTL => "expired TTL",
        ValidationError::Crypto(err) => crypto_message(err),
    }
}

impl ValidationError {
    pub fn message(&self) -> (r: &'static str)
        ensures
            r == validation_message(*self),
    {
        match self {
            ValidationError::KeyType => "bad key type",
            ValidationError::Preimage => "digest mismatch",
            ValidationError::EmptyPayload => "empty payload",
            ValidationError::Outdated => "metadata is outdated",
            ValidationError::ExpiredTTL => "expired TTL",
            ValidationError::Crypto(err) => err.message(),
        }
    }

    /// The HTTP status a rejection is answered with: every one is a bad request.
    pub fn status(&self) -> (r: u16)
        ensures
            r == 400,
    {
        match self {
            ValidationError::Crypto(err) => err.status(),
            _ => 400,
        }
    }
}

impl CryptoError {
    /// The HTTP status of a cryptographic failure: a bad request.
    pub fn status(&self) -> (r: u16)
        ensures
            r == 400,
    {
        400
    }
}

impl From<CryptoError> for ValidationError {
    fn from(err: CryptoError) -> (r: ValidationError)
        ensures
            r == ValidationError::Crypto(err),
    {
        ValidationError::Crypto(err)
    }
}

impl vstd::std_specs::convert::FromSpecImpl<CryptoError> for ValidationError {
    open spec fn obeys_from_spec() -> bool {
        true
    }

    open spec fn from_spec(err: CryptoError) -> ValidationError {
        ValidationError::Crypto(err)
    }
}

#[verifier::external_type_specification]
#[verifier::external_body]
pub struct ExReqwestError(reqwest::Error);

#[verifier::external_type_specification]
#[verifier::external_body]
pub struct ExAddressError(bitcoincash_addr::cashaddr::DecodingError);

/// Failures of the payment-protocol client.
pub enum PaymentError {
    InvalidAuth,
    Bip70Server(reqwest::Error),
    Payload,
    Decode,
    EmptyPaymentRequest,
}

/// The text of each payment failure; none where the text is the HTTP client's.
pub open spec fn payment_message(e: PaymentError) -> Option<&'static str> {
    match e {
        PaymentError::InvalidAuth => Some("invalid payment token"),
        PaymentError::Bip70Server(_) => None,
        PaymentError::Payload => Some("failed fetching payload"),
        PaymentError::Decode => Some("failed to decode invoice response"),
        PaymentError::EmptyPaymentRequest => Some("no payment request"),
    }
}

impl PaymentError {
    pub fn message(&self) -> (r: Option<&'static str>)
        ensures
            r == payment_message(*self),
    {
        match self {
            PaymentError::InvalidAuth => Some("invalid payment token"),
            PaymentError::Bip70Server(_) => None,
            PaymentError::Payload => Some("failed fetching payload"),
            PaymentError::Decode => Some("failed to decode invoice response"),
            PaymentError::EmptyPaymentRequest => Some("no payment request"),
        }
    }

    /// The HTTP status: a bad token is the client's fault, the rest are internal.
    pub fn status(&self) -> (r: u16)
        ensures
            r == (if self is InvalidAuth { 400u16 } else { 500u16 }),
    {
        match self {
            PaymentError::InvalidAuth => 400,
            _ => 500,
        }
    }
}

/// Failures of the service as a whole.
pub enum ServerError {
    /// A storage engine failure, with the engine's message.
    DB(String),
    Validation(ValidationError),
    Crypto(CryptoError),
    NotFound,
    MetadataDecode,
    UnsupportedSigScheme,
    Payment(PaymentError),
    /// An address string that does not decode, with the cash-address decoder's error.
    Address(bitcoincash_addr::cashaddr::DecodingError),
}

/// The HTTP status that each service failure is answered with.
pub open spec fn server_status(e: ServerError) -> u16 {
    match e {
        ServerError::DB(_) => 500,
        ServerError::NotFound => 404,
        ServerError::Payment(p) => if p is InvalidAuth {
            400
        } else {
            500
        },
        _ => 400,
    }
}

/// The text a client may see of each service failure; none for internal ones
/// and for those whose text comes from an outside crate.
pub open spec fn public_message(e: ServerError) -> Option<&'static str> {
    match e {
        ServerError::Validation(err) => Some(validation_message(err)),
        ServerError::Crypto(err) => Some(crypto_message(err)),
        ServerError::NotFound => Some("not found"),
        ServerError::MetadataDecode => Some("metadata decoding error"),
        ServerError::UnsupportedSigScheme => Some("signature scheme not supported"),
        ServerError::Payment(p) => if p is InvalidAuth {
            Some("invalid payment token")
        } else {
            None
        },
        _ => None,
    }
}

impl ServerError {
    pub fn status(&self) -> (r: u16)
        ensures
            r == server_status(*self),
    {
        match self {
            ServerError::DB(_) => 500,
            ServerError::Validation(err) => err.status(),
            ServerError::Crypto(err) => err.status(),
            ServerError::NotFound => 404,
            ServerError::MetadataDecode => 400,
            ServerError::UnsupportedSigScheme => 400,
            ServerError::Payment(err) => err.status(),
            ServerError::Address(_) => 400,
        }
    }

    /// The text a client may see: internal failures say nothing of their cause.
    pub fn public_message(&self) -> (r: Option<&'static str>)
        ensures
            r == public_message(*self),
            server_status(*self) == 500 ==> r is None,
    {
        match self {
            ServerError::DB(_) => None,
            ServerError::Validation(err) => Some(err.message()),
            ServerError::Crypto(err) => Some(err.message()),
            ServerError::NotFound => Some("not found"),
            ServerError::MetadataDecode => Some("metadata decoding error"),
            ServerError::UnsupportedSigScheme => Some("signature scheme not supported"),
            ServerError::Payment(PaymentError::InvalidAuth) => Some("invalid payment token"),
            ServerError::Payment(_) => None,
            ServerError::Address(_) => None,
        }
    }
}

impl From<ValidationError> for ServerError {
    fn from(err: ValidationError) -> (r: ServerError)
        ensures
            r == ServerError::Validation(err),
    {
        ServerError::Validation(err)
    }
}

impl vstd::std_specs::convert::FromSpecImpl<ValidationError> for ServerError {
    open spec fn obeys_from_spec() -> bool {
        true
    }

    open spec fn from_spec(err: ValidationError) -> ServerError {
        ServerError::Validation(err)
    }
}

impl From<CryptoError> for ServerError {
    fn from(err: CryptoError) -> (r: ServerError)
        ensures
            r == ServerError::Crypto(err),
    {
        ServerError::Crypto(err)
    }
}

impl vstd::std_specs::convert::FromSpecImpl<CryptoError> for ServerError {
    open spec fn obeys_from_spec() -> bool {
        true
    }

    open spec fn from_spec(err: CryptoError) -> ServerError {
        ServerError::Crypto(err)
    }
}

impl From<PaymentError> for ServerError {
    fn from(err: PaymentError) -> (r: ServerError)
        ensures
            r == ServerError::Payment(err),
    {
        ServerError::Payment(err)
    }
}

impl vstd::std_specs::convert::FromSpecImpl<PaymentError> for ServerError {
    open spec fn obeys_from_spec() -> bool {
        true
    }

    open spec fn from_spec(err: PaymentError) -> ServerError {
        ServerError::Payment(err)
    }
}

} // verus!
