use keyserver::crypto::CryptoError;
use keyserver::errors::{PaymentError, ServerError, ValidationError};
use keyserver::tx_stream::extract_details;

fn script(prefix: &[u8]) -> Vec<u8> {
    let mut s = vec![0x6a];
    s.extend_from_slice(prefix);
    s.extend_from_slice(&[1, 2, 3, 4, 0x1f, 0x90]);
    s.extend_from_slice(&[0u8; 20]);
    s.extend_from_slice(&[7u8; 20]);
    s
}

#[test]
fn announcement_is_read() {
    let (peer, addr, digest) = extract_details(&script(b"keyserver")).unwrap();
    assert_eq!(peer, "1.2.3.4:8080");
    assert_eq!(addr, "1111111111111111111114oLvT2");
    assert_eq!(digest, vec![7u8; 20]);
}

#[test]
fn announcement_wide_octets() {
    let mut s = script(b"keyserver");
    s[10..16].copy_from_slice(&[255, 0, 10, 192, 0, 0]);
    let (peer, _, _) = extract_details(&s).unwrap();
    assert_eq!(peer, "255.0.10.192:0");
}

#[test]
fn other_scripts_are_ignored() {
    assert!(extract_details(&script(b"keyservex")).is_none());
    let mut s = script(b"keyserver");
    s[0] = 0x76;
    assert!(extract_details(&s).is_none());
    let mut s = script(b"keyserver");
    s.push(0);
    assert!(extract_details(&s).is_none());
    assert!(extract_details(&[]).is_none());
}

#[test]
fn error_statuses() {
    assert_eq!(ValidationError::Preimage.status(), 400);
    assert_eq!(ValidationError::Crypto(CryptoError::Verification).status(), 400);
    assert_eq!(ServerError::NotFound.status(), 404);
    assert_eq!(ServerError::DB("disk".to_string()).status(), 500);
    assert!(ServerError::DB("disk".to_string()).public_message().is_none());
    assert_eq!(ServerError::Payment(PaymentError::InvalidAuth).status(), 400);
    assert_eq!(ServerError::Payment(PaymentError::Decode).status(), 500);
    assert_eq!(ServerError::from(ValidationError::EmptyPayload).status(), 400);
    assert_eq!(ValidationError::from(CryptoError::SigDeserialization), ValidationError::Crypto(CryptoError::SigDeserialization));
    assert_eq!(ValidationError::Preimage.message(), "digest mismatch");
    assert_eq!(ServerError::MetadataDecode.public_message(), Some("metadata decoding error"));
    assert_eq!(ServerError::from(CryptoError::Verification).status(), 400);
    assert!(matches!(ServerError::from(CryptoError::Verification), ServerError::Crypto(CryptoError::Verification)));
    assert_eq!(PaymentError::Decode.message(), Some("failed to decode invoice response"));
    assert_eq!(PaymentError::EmptyPaymentRequest.message(), Some("no payment request"));
}
