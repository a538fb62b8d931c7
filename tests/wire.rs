use keyserver::model::{AddressMetadata, Payload};
use keyserver::wire::{decode_metadata, decode_payload, encode_metadata, encode_payload, read_varint};

#[test]
fn payload_encoding_bytes() {
    let p = Payload { timestamp: 1, ttl: 300, entries: vec![b"ab".to_vec()] };
    assert_eq!(encode_payload(&p), vec![0x08, 0x01, 0x10, 0xac, 0x02, 0x1a, 0x02, 0x61, 0x62]);
}

#[test]
fn payload_decoding() {
    let p = decode_payload(&[0x08, 0x01, 0x10, 0xac, 0x02, 0x1a, 0x02, 0x61, 0x62]).unwrap();
    assert_eq!(p.timestamp, 1);
    assert_eq!(p.ttl, 300);
    assert_eq!(p.entries, vec![b"ab".to_vec()]);
    let q = decode_payload(&[]).unwrap();
    assert_eq!((q.timestamp, q.ttl, q.entries.len()), (0, 0, 0));
}

#[test]
fn payload_negative_values_round_trip() {
    let p = Payload { timestamp: -5, ttl: i64::MIN, entries: vec![vec![], vec![9; 200]] };
    let q = decode_payload(&encode_payload(&p)).unwrap();
    assert_eq!((q.timestamp, q.ttl), (-5, i64::MIN));
    assert_eq!(q.entries, p.entries);
}

#[test]
fn payload_skips_unknown_fields() {
    // field 4 varint, field 5 fixed64, field 6 bytes, field 7 fixed32
    let b = [
        0x20, 0x05, 0x29, 1, 2, 3, 4, 5, 6, 7, 8, 0x32, 0x01, 0xff, 0x3d, 1, 2, 3, 4, 0x08, 0x07,
    ];
    let p = decode_payload(&b).unwrap();
    assert_eq!(p.timestamp, 7);
    assert!(p.entries.is_empty());
}

#[test]
fn payload_rejects_bad_input() {
    assert!(decode_payload(&[0x08]).is_none());
    assert!(decode_payload(&[0x1a, 0x05, 0x01]).is_none());
    assert!(decode_payload(&[0x0a, 0x00]).is_none());
    assert!(decode_payload(&[0x00, 0x00]).is_none());
    assert!(decode_payload(&[0x0b]).is_none());
}

#[test]
fn varint_reading() {
    assert_eq!(read_varint(&[0xac, 0x02, 0x07], 0), Some((300, 2)));
    assert_eq!(read_varint(&[0x00, 0x7f], 1), Some((127, 2)));
    assert_eq!(read_varint(&[0x80], 0), None);
    let max = [0xff, 0xff, 0xff, 0xff, 0xff, 0xff, 0xff, 0xff, 0xff, 0x01];
    assert_eq!(read_varint(&max, 0), Some((u64::MAX, 10)));
    let over = [0xff, 0xff, 0xff, 0xff, 0xff, 0xff, 0xff, 0xff, 0xff, 0x02];
    assert_eq!(read_varint(&over, 0), None);
    assert_eq!(read_varint(&[0x80; 11], 0), None);
}

#[test]
fn metadata_encoding_bytes() {
    let m = AddressMetadata {
        pub_key: vec![1, 2],
        serialized_payload: vec![3],
        signature: vec![],
        scheme: -1,
    };
    let mut expected = vec![0x0a, 0x02, 1, 2, 0x12, 0x01, 3, 0x1a, 0x00, 0x20];
    expected.extend_from_slice(&[0xff, 0xff, 0xff, 0xff, 0xff, 0xff, 0xff, 0xff, 0xff, 0x01]);
    let bytes = encode_metadata(&m);
    assert_eq!(bytes, expected);
    let back = decode_metadata(&bytes).unwrap();
    assert_eq!(back.pub_key, vec![1, 2]);
    assert_eq!(back.serialized_payload, vec![3]);
    assert!(back.signature.is_empty());
    assert_eq!(back.scheme, -1);
}

#[test]
fn metadata_rejects_damaged_bytes() {
    let m = AddressMetadata { pub_key: vec![1], serialized_payload: vec![2], signature: vec![3], scheme: 1 };
    let bytes = encode_metadata(&m);
    assert!(decode_metadata(&bytes[..bytes.len() - 1]).is_none());
    let mut longer = bytes.clone();
    longer.push(0);
    assert!(decode_metadata(&longer).is_none());
    assert!(decode_metadata(&[0x0a, 0x05, 1]).is_none());
    assert!(decode_metadata(&[0x22, 0x00]).is_none());
    let mut repeated = bytes.clone();
    repeated[0] = 0x12;
    let later_wins = decode_metadata(&repeated).unwrap();
    assert!(later_wins.pub_key.is_empty());
    assert_eq!(later_wins.serialized_payload, vec![2]);
}

#[test]
fn metadata_reads_the_layouts_of_other_writers() {
    let empty = decode_metadata(&[]).unwrap();
    assert!(empty.pub_key.is_empty() && empty.serialized_payload.is_empty() && empty.signature.is_empty());
    assert_eq!(empty.scheme, 0);
    // scheme first, signature before payload, key left out, an unknown field 9
    let b = [0x20, 0x01, 0x1a, 0x01, 0x03, 0x48, 0x05, 0x12, 0x02, 0x04, 0x05];
    let m = decode_metadata(&b).unwrap();
    assert!(m.pub_key.is_empty());
    assert_eq!(m.serialized_payload, vec![4, 5]);
    assert_eq!(m.signature, vec![3]);
    assert_eq!(m.scheme, 1);
}
