//! The byte forms of records and payloads, in the protocol-buffers wire format.
use vstd::prelude::*;

use crate::model::{AddressMetadata, MetadataModel, Payload, PayloadModel};

verus! {

/// The LEB128 form of `v`: seven bits per byte, low bits first, the high bit
/// set on every byte but the last.
pub open spec fn varint_bytes(v: u64) -> Seq<u8>
    decreases v,
{
    if v < 128 {
        seq![v as u8]
    } else {
        seq![(v % 128 + 128) as u8] + varint_bytes(v / 128)
    }
}

/// Reads a LEB128 integer from the front of `s`, taking at most `budget` bytes:
/// its value and the count of bytes it took.
pub open spec fn leb_read(s: Seq<u8>, budget: nat) -> Option<(int, nat)>
    decreases budget,
{
    if budget == 0 || s.len() == 0 {
        None
    } else if s[0] < 128 {
        Some((s[0] as int, 1))
    } else {
        match leb_read(s.skip(1), (budget - 1) as nat) {
            Some((v, n)) => Some(((s[0] - 128) + 128 * v, n + 1)),
            None => None,
        }
    }
}

/// The varint at the front of `s` (ten bytes at most, value within `u64`) and
/// the count of bytes it takes.
pub open spec fn varint_read(s: Seq<u8>) -> Option<(u64, nat)> {
    match leb_read(s, 10) {
        Some((v, n)) => if v <= u64::MAX {
            Some((v as u64, n))
        } else {
            None
        },
        None => None,
    }
}

/// Relies on prost::encoding::encode_varint: appends the LEB128 form of `v`.
#[verifier::external_body]
fn put_varint(v: u64, buf: &mut Vec<u8>)
    ensures
        final(buf)@ == old(buf)@ + varint_bytes(v),
{
    prost::encoding::encode_varint(v, buf)
}

proof fn lemma_varint_len(v: u64)
    ensures
        1 <= varint_bytes(v).len() <= 10,
{
    assert(pow128(10) == 1180591620717411303424) by {
        reveal_with_fuel(pow128, 11);
    }
    lemma_varint_len_below(v, 10);
}

proof fn lemma_varint_len_below(v: u64, k: nat)
    requires
        1 <= k,
        v < pow128(k),
    ensures
        1 <= varint_bytes(v).len() <= k,
    decreases k,
{
    if v >= 128 {
        if k == 1 {
            assert(pow128(1) == 128) by { reveal_with_fuel(pow128, 2); }
        } else {
            assert(pow128(k) == 128 * pow128((k - 1) as nat));
            assert(v / 128 < pow128((k - 1) as nat)) by (nonlinear_arith)
                requires v < 128 * pow128((k - 1) as nat), v >= 0;
            lemma_varint_len_below((v / 128) as u64, (k - 1) as nat);
        }
    }
}

pub open spec fn pow128(k: nat) -> int
    decreases k,
{
    if k == 0 {
        1
    } else {
        128 * pow128((k - 1) as nat)
    }
}

proof fn lemma_leb_round_trip(v: u64, t: Seq<u8>, budget: nat)
    requires
        varint_bytes(v).len() <= budget,
    ensures
        leb_read(varint_bytes(v) + t, budget) == Some((v as int, varint_bytes(v).len())),
    decreases v,
{
    let s = varint_bytes(v) + t;
    if v >= 128 {
        let w = (v / 128) as u64;
        assert(s.skip(1) =~= varint_bytes(w) + t);
        lemma_leb_round_trip(w, t, (budget - 1) as nat);
    }
}

/// Reading back the varint that `varint_bytes` writes gives its value and length.
pub proof fn lemma_varint_round_trip(v: u64, t: Seq<u8>)
    ensures
        varint_read(varint_bytes(v) + t) == Some((v, varint_bytes(v).len())),
{
    lemma_varint_len(v);
    lemma_leb_round_trip(v, t, 10);
}

/// Reads the varint that starts at `pos`: its value and the position after it.
pub fn read_varint(b: &[u8], pos: usize) -> (r: Option<(u64, usize)>)
    requires
        pos <= b.len(),
    ensures
        match varint_read(b@.skip(pos as int)) {
            Some((v, n)) => r == Some((v, (pos + n) as usize)) && pos + n <= b.len(),
            None => r is None,
        },
{
    match read_leb(b, pos, 10) {
        Some((v, p)) => Some((v, p)),
        None => None,
    }
}

fn read_leb(b: &[u8], pos: usize, budget: usize) -> (r: Option<(u64, usize)>)
    requires
        pos <= b.len(),
    ensures
        match leb_read(b@.skip(pos as int), budget as nat) {
            Some((v, n)) => if v <= u64::MAX {
                r == Some((v as u64, (pos + n) as usize)) && pos + n <= b.len()
            } else {
                r is None
            },
            None => r is None,
        },
    decreases budget,
{
    let ghost s = b@.skip(pos as int);
    if budget == 0 || pos >= b.len() {
        return None;
    }
    let byte = b[pos];
    assert(s[0] == byte);
    proof { lemma_leb_nonneg(s, budget as nat); }
    if byte < 128 {
        return Some((byte as u64, pos + 1));
    }
    assert(s.skip(1) =~= b@.skip(pos + 1));
    let low = (byte - 128) as u64;
    match read_leb(b, pos + 1, budget - 1) {
        Some((v, p)) => {
            if v > (u64::MAX - low) / 128 {
                proof {
                    assert(low + 128 * v > u64::MAX) by (nonlinear_arith)
                        requires v > (u64::MAX - low) / 128, low < 128;
                }
                None
            } else {
                proof {
                    assert(low + 128 * v <= u64::MAX) by (nonlinear_arith)
                        requires v <= (u64::MAX - low) / 128, low < 128;
                }
                Some((low + 128 * v, p))
            }
        },
        None => {
            proof {
                match leb_read(s.skip(1), (budget - 1) as nat) {
                    Some((v, n)) => {
                        assert(v > u64::MAX);
                        assert(v >= 0) by { lemma_leb_nonneg(s.skip(1), (budget - 1) as nat); }
                        assert(low + 128 * v > u64::MAX) by (nonlinear_arith)
                            requires v > u64::MAX, low >= 0;
                    },
                    None => {},
                }
            }
            None
        },
    }
}

proof fn lemma_leb_nonneg(s: Seq<u8>, budget: nat)
    ensures
        leb_read(s, budget) matches Some((v, n)) ==> v >= 0 && 1 <= n <= s.len(),
    decreases budget,
{
    if budget > 0 && s.len() > 0 && s[0] >= 128 {
        lemma_leb_nonneg(s.skip(1), (budget - 1) as nat);
    }
}

/// Copies `b[start..end]` into a new vector.
pub(crate) fn copy_range(b: &[u8], start: usize, end: usize) -> (r: Vec<u8>)
    requires
        start <= end <= b.len(),
    ensures
        r@ == b@.subrange(start as int, end as int),
{
    let mut r: Vec<u8> = Vec::new();
    let mut i: usize = start;
    while i < end
        invariant
            start <= i <= end <= b.len(),
            r@ == b@.subrange(start as int, i as int),
        decreases end - i,
    {
        r.push(b[i]);
        i = i + 1;
        assert(r@ =~= b@.subrange(start as int, i as int));
    }
    r
}

/// Appends the bytes of `x` to `buf`.
fn append_bytes(buf: &mut Vec<u8>, x: &[u8])
    ensures
        final(buf)@ == old(buf)@ + x@,
{
    let ghost start = buf@;
    let mut i: usize = 0;
    while i < x.len()
        invariant
            i <= x.len(),
            buf@ == start + x@.subrange(0, i as int),
        decreases x.len() - i,
    {
        buf.push(x[i]);
        i = i + 1;
        assert(buf@ =~= start + x@.subrange(0, i as int));
    }
    assert(x@.subrange(0, x@.len() as int) =~= x@);
}

/// A length-delimited field: its key byte, the length as a varint, the contents.
pub open spec fn field_bytes(key: u8, x: Seq<u8>) -> Seq<u8> {
    seq![key] + varint_bytes(x.len() as u64) + x
}

/// Key bytes of the four fields of a record: fields 1 to 3 length-delimited,
/// field 4 a varint.
pub const PUB_KEY_FIELD: u8 = 0x0a;
pub const PAYLOAD_FIELD: u8 = 0x12;
pub const SIGNATURE_FIELD: u8 = 0x1a;
pub const SCHEME_FIELD: u8 = 0x20;

/// The stored form of a record: all four fields, in field order, each written
/// even where it holds its default.
pub open spec fn metadata_bytes(m: MetadataModel) -> Seq<u8> {
    field_bytes(PUB_KEY_FIELD, m.pub_key) + field_bytes(PAYLOAD_FIELD, m.serialized_payload)
        + field_bytes(SIGNATURE_FIELD, m.signature) + seq![SCHEME_FIELD] + varint_bytes(
        m.scheme as i64 as u64,
    )
}

/// Field numbers of a record.
pub const PUB_KEY_NUM: u64 = 1;
pub const PAYLOAD_NUM: u64 = 2;
pub const SIGNATURE_NUM: u64 = 3;
pub const SCHEME_NUM: u64 = 4;

/// Folds the fields at the front of `s` into `acc`, in the way of the protocol
/// buffers wire format: fields may come in any order and may be left out (they
/// then keep their default, empty or zero); a later occurrence replaces an earlier
/// one; fields of other numbers are skipped by their wire type. A key of field 0,
/// a known field of the wrong wire type, a group, or a field cut short makes the
/// whole decode fail.
pub open spec fn metadata_fields(s: Seq<u8>, acc: MetadataModel) -> Option<MetadataModel>
    decreases s.len(),
{
    if s.len() == 0 {
        Some(acc)
    } else {
        match varint_read(s) {
            Some((key, n)) => {
                let rest = s.skip(n as int);
                let field = key / 8;
                let wire_type = key % 8;
                if n == 0 || n > s.len() || field == 0 {
                    None
                } else if wire_type == 0 && (field == SCHEME_NUM || field > SCHEME_NUM) {
                    match varint_read(rest) {
                        Some((v, m)) => if m == 0 || m > rest.len() {
                            None
                        } else if field == SCHEME_NUM {
                            metadata_fields(rest.skip(m as int), MetadataModel { scheme: v as i32, ..acc })
                        } else {
                            metadata_fields(rest.skip(m as int), acc)
                        },
                        None => None,
                    }
                } else if wire_type == 2 && field != SCHEME_NUM {
                    match varint_read(rest) {
                        Some((l, m)) => if m == 0 || m + l > rest.len() {
                            None
                        } else {
                            let data = rest.subrange(m as int, m + l as int);
                            let next = rest.skip(m + l as int);
                            if field == PUB_KEY_NUM {
                                metadata_fields(next, MetadataModel { pub_key: data, ..acc })
                            } else if field == PAYLOAD_NUM {
                                metadata_fields(next, MetadataModel { serialized_payload: data, ..acc })
                            } else if field == SIGNATURE_NUM {
                                metadata_fields(next, MetadataModel { signature: data, ..acc })
                            } else {
                                metadata_fields(next, acc)
                            }
                        },
                        None => None,
                    }
                } else if wire_type == 1 && field > SCHEME_NUM && rest.len() >= 8 {
                    metadata_fields(rest.skip(8), acc)
                } else if wire_type == 5 && field > SCHEME_NUM && rest.len() >= 4 {
                    metadata_fields(rest.skip(4), acc)
                } else {
                    None
                }
            },
            None => None,
        }
    }
}

/// The record with every field at its default.
pub open spec fn empty_metadata() -> MetadataModel {
    MetadataModel {
        pub_key: Seq::empty(),
        serialized_payload: Seq::empty(),
        signature: Seq::empty(),
        scheme: 0,
    }
}

/// The record that `s` holds in its stored form, if it holds one.
pub open spec fn metadata_of(s: Seq<u8>) -> Option<MetadataModel> {
    metadata_fields(s, empty_metadata())
}

fn put_field(buf: &mut Vec<u8>, key: u8, x: &[u8])
    ensures
        final(buf)@ == old(buf)@ + field_bytes(key, x@),
{
    buf.push(key);
    put_varint(x.len() as u64, buf);
    append_bytes(buf, x);
    assert(final(buf)@ =~= old(buf)@ + field_bytes(key, x@));
}

/// Encodes a record into its stored form.
pub fn encode_metadata(m: &AddressMetadata) -> (r: Vec<u8>)
    ensures
        r@ == metadata_bytes(m@),
{
    let mut buf: Vec<u8> = Vec::new();
    put_field(&mut buf, PUB_KEY_FIELD, m.pub_key.as_slice());
    put_field(&mut buf, PAYLOAD_FIELD, m.serialized_payload.as_slice());
    put_field(&mut buf, SIGNATURE_FIELD, m.signature.as_slice());
    buf.push(SCHEME_FIELD);
    put_varint(#[verifier::truncate] (m.scheme as i64 as u64), &mut buf);
    assert(buf@ =~= metadata_bytes(m@));
    buf
}

/// Reads the record field at `pos` into `acc`: the position after it, or `None`
/// where the decode fails there.
#[verifier::rlimit(40)]
fn decode_metadata_field(b: &[u8], pos: usize, acc: &mut AddressMetadata) -> (r: Option<usize>)
    requires
        pos < b.len(),
    ensures
        match r {
            Some(p) => pos < p <= b.len() && metadata_fields(b@.skip(pos as int), old(acc)@)
                == metadata_fields(b@.skip(p as int), final(acc)@),
            None => metadata_fields(b@.skip(pos as int), old(acc)@) is None,
        },
{
    let ghost s = b@.skip(pos as int);
    let (key, p1) = match read_varint(b, pos) {
        Some(k) => k,
        None => return None,
    };
    proof { lemma_leb_nonneg(s, 10); }
    let ghost rest = s.skip(p1 - pos);
    assert(rest =~= b@.skip(p1 as int));
    let field = key / 8;
    let wire_type = key % 8;
    if field == 0 {
        return None;
    }
    if wire_type == 0 && (field == SCHEME_NUM || field > SCHEME_NUM) {
        let (v, p2) = match read_varint(b, p1) {
            Some(x) => x,
            None => return None,
        };
        proof { lemma_leb_nonneg(rest, 10); }
        assert(rest.skip(p2 - p1) =~= b@.skip(p2 as int));
        if field == SCHEME_NUM {
            acc.scheme = #[verifier::truncate] (v as i32);
        }
        Some(p2)
    } else if wire_type == 2 && field != SCHEME_NUM {
        let (l, p2) = match read_varint(b, p1) {
            Some(x) => x,
            None => return None,
        };
        proof { lemma_leb_nonneg(rest, 10); }
        if l as u128 > (b.len() - p2) as u128 {
            return None;
        }
        let end = p2 + l as usize;
        assert(rest.skip(end - p1) =~= b@.skip(end as int));
        if field == PUB_KEY_NUM || field == PAYLOAD_NUM || field == SIGNATURE_NUM {
            let data = copy_range(b, p2, end);
            assert(data@ =~= rest.subrange(p2 - p1, end - p1));
            if field == PUB_KEY_NUM {
                acc.pub_key = data;
            } else if field == PAYLOAD_NUM {
                acc.serialized_payload = data;
            } else {
                acc.signature = data;
            }
        }
        Some(end)
    } else if wire_type == 1 && field > SCHEME_NUM && b.len() - p1 >= 8 {
        assert(rest.skip(8) =~= b@.skip(p1 + 8));
        Some(p1 + 8)
    } else if wire_type == 5 && field > SCHEME_NUM && b.len() - p1 >= 4 {
        assert(rest.skip(4) =~= b@.skip(p1 + 4));
        Some(p1 + 4)
    } else {
        None
    }
}

/// Decodes a record from its stored form; `None` where the bytes are not one.
pub fn decode_metadata(b: &[u8]) -> (r: Option<AddressMetadata>)
    ensures
        match metadata_of(b@) {
            Some(m) => r matches Some(x) && x@ == m,
            None => r is None,
        },
{
    let mut acc = AddressMetadata {
        pub_key: Vec::new(),
        serialized_payload: Vec::new(),
        signature: Vec::new(),
        scheme: 0,
    };
    let mut pos: usize = 0;
    assert(b@.skip(0) =~= b@);
    assert(acc@ =~= empty_metadata());
    while pos < b.len()
        invariant
            pos <= b.len(),
            metadata_of(b@) == metadata_fields(b@.skip(pos as int), acc@),
        decreases b.len() - pos,
    {
        match decode_metadata_field(b, pos, &mut acc) {
            Some(p) => pos = p,
            None => return None,
        }
    }
    assert(b@.skip(pos as int) =~= Seq::<u8>::empty());
    Some(acc)
}

/// One length-delimited record field, read in front of the rest.
proof fn lemma_metadata_field_step(key: u8, x: Seq<u8>, t: Seq<u8>, acc: MetadataModel)
    requires
        key == PUB_KEY_FIELD || key == PAYLOAD_FIELD || key == SIGNATURE_FIELD,
        x.len() <= u64::MAX,
    ensures
        metadata_fields(field_bytes(key, x) + t, acc) == metadata_fields(
            t,
            if key == PUB_KEY_FIELD {
                MetadataModel { pub_key: x, ..acc }
            } else if key == PAYLOAD_FIELD {
                MetadataModel { serialized_payload: x, ..acc }
            } else {
                MetadataModel { signature: x, ..acc }
            },
        ),
{
    let s = field_bytes(key, x) + t;
    lemma_small_varint(s);
    let r1 = s.skip(1);
    let vb = varint_bytes(x.len() as u64);
    assert(r1 =~= vb + (x + t));
    lemma_varint_round_trip(x.len() as u64, x + t);
    assert(r1.subrange(vb.len() as int, vb.len() + x.len() as int) =~= x);
    assert(r1.skip(vb.len() + x.len() as int) =~= t);
}

/// Decoding the stored form of a record gives the record back.
pub proof fn lemma_metadata_round_trip(m: MetadataModel)
    requires
        m.pub_key.len() <= u64::MAX,
        m.serialized_payload.len() <= u64::MAX,
        m.signature.len() <= u64::MAX,
    ensures
        metadata_of(metadata_bytes(m)) == Some(m),
{
    let sv = m.scheme as i64 as u64;
    let tail = seq![SCHEME_FIELD] + varint_bytes(sv);
    let f3 = field_bytes(SIGNATURE_FIELD, m.signature);
    let f2 = field_bytes(PAYLOAD_FIELD, m.serialized_payload);
    let f1 = field_bytes(PUB_KEY_FIELD, m.pub_key);
    let e = empty_metadata();
    let a1 = MetadataModel { pub_key: m.pub_key, ..e };
    let a2 = MetadataModel { serialized_payload: m.serialized_payload, ..a1 };
    let a3 = MetadataModel { signature: m.signature, ..a2 };
    assert(metadata_bytes(m) =~= f1 + (f2 + (f3 + tail)));
    lemma_metadata_field_step(PUB_KEY_FIELD, m.pub_key, f2 + (f3 + tail), e);
    lemma_metadata_field_step(PAYLOAD_FIELD, m.serialized_payload, f3 + tail, a1);
    lemma_metadata_field_step(SIGNATURE_FIELD, m.signature, tail, a2);
    lemma_small_varint(tail);
    assert(tail.skip(1) =~= varint_bytes(sv) + Seq::<u8>::empty());
    lemma_varint_round_trip(sv, Seq::<u8>::empty());
    assert(tail.skip(1).skip(varint_bytes(sv).len() as int) =~= Seq::<u8>::empty());
    let sc = m.scheme;
    assert(sc as i64 as u64 as i32 == sc) by (bit_vector);
    assert(metadata_fields(tail, a3) == metadata_fields(Seq::<u8>::empty(), MetadataModel { scheme: sc, ..a3 }));
    assert(MetadataModel { scheme: sc, ..a3 } == m);
}

/// Payload fields: 1 the timestamp, 2 the time to live (both varints), 3 an
/// entry (length-delimited).
pub const TIMESTAMP_FIELD: u64 = 1;
pub const TTL_FIELD: u64 = 2;
pub const ENTRY_FIELD: u64 = 3;

/// Folds the fields at the front of `s` into `acc`. A later timestamp or time to
/// live replaces an earlier one; entries are appended in order; fields of other
/// numbers are skipped by their wire type. A key of field 0, a known field of the
/// wrong wire type, a group, or a field cut short makes the whole decode fail.
pub open spec fn payload_fields(s: Seq<u8>, acc: PayloadModel) -> Option<PayloadModel>
    decreases s.len(),
{
    if s.len() == 0 {
        Some(acc)
    } else {
        match varint_read(s) {
            Some((key, n)) => {
                let rest = s.skip(n as int);
                let field = key / 8;
                let wire_type = key % 8;
                if n == 0 || n > s.len() || field == 0 {
                    None
                } else if wire_type == 0 && field != ENTRY_FIELD {
                    match varint_read(rest) {
                        Some((v, m)) => if m == 0 || m > rest.len() {
                            None
                        } else if field == TIMESTAMP_FIELD {
                            payload_fields(rest.skip(m as int), PayloadModel { timestamp: v as i64, ..acc })
                        } else if field == TTL_FIELD {
                            payload_fields(rest.skip(m as int), PayloadModel { ttl: v as i64, ..acc })
                        } else {
                            payload_fields(rest.skip(m as int), acc)
                        },
                        None => None,
                    }
                } else if wire_type == 2 && field != TIMESTAMP_FIELD && field != TTL_FIELD {
                    match varint_read(rest) {
                        Some((l, m)) => if m == 0 || m + l > rest.len() {
                            None
                        } else if field == ENTRY_FIELD {
                            payload_fields(
                                rest.skip(m + l as int),
                                PayloadModel {
                                    entries: acc.entries.push(rest.subrange(m as int, m + l as int)),
                                    ..acc
                                },
                            )
                        } else {
                            payload_fields(rest.skip(m + l as int), acc)
                        },
                        None => None,
                    }
                } else if wire_type == 1 && field > ENTRY_FIELD && rest.len() >= 8 {
                    payload_fields(rest.skip(8), acc)
                } else if wire_type == 5 && field > ENTRY_FIELD && rest.len() >= 4 {
                    payload_fields(rest.skip(4), acc)
                } else {
                    None
                }
            },
            None => None,
        }
    }
}

/// The payload that `s` encodes, if it encodes one.
pub open spec fn payload_of(s: Seq<u8>) -> Option<PayloadModel> {
    payload_fields(s, PayloadModel { timestamp: 0, ttl: 0, entries: Seq::empty() })
}

/// Reads the field at `pos` into `acc`: the position after it, or `None` where
/// the decode fails there.
#[verifier::rlimit(40)]
fn decode_field(b: &[u8], pos: usize, acc: &mut Payload) -> (r: Option<usize>)
    requires
        pos < b.len(),
    ensures
        match r {
            Some(p) => pos < p <= b.len() && payload_fields(b@.skip(pos as int), old(acc)@)
                == payload_fields(b@.skip(p as int), final(acc)@),
            None => payload_fields(b@.skip(pos as int), old(acc)@) is None,
        },
{
    let ghost s = b@.skip(pos as int);
    let (key, p1) = match read_varint(b, pos) {
        Some(k) => k,
        None => return None,
    };
    proof { lemma_leb_nonneg(s, 10); }
    let ghost rest = s.skip(p1 - pos);
    assert(rest =~= b@.skip(p1 as int));
    let field = key / 8;
    let wire_type = key % 8;
    if field == 0 {
        return None;
    }
    if wire_type == 0 && field != ENTRY_FIELD {
        let (v, p2) = match read_varint(b, p1) {
            Some(x) => x,
            None => return None,
        };
        proof { lemma_leb_nonneg(rest, 10); }
        assert(rest.skip(p2 - p1) =~= b@.skip(p2 as int));
        if field == TIMESTAMP_FIELD {
            acc.timestamp = #[verifier::truncate] (v as i64);
        } else if field == TTL_FIELD {
            acc.ttl = #[verifier::truncate] (v as i64);
        }
        Some(p2)
    } else if wire_type == 2 && field != TIMESTAMP_FIELD && field != TTL_FIELD {
        let (l, p2) = match read_varint(b, p1) {
            Some(x) => x,
            None => return None,
        };
        proof { lemma_leb_nonneg(rest, 10); }
        if l as u128 > (b.len() - p2) as u128 {
            return None;
        }
        let end = p2 + l as usize;
        assert(rest.skip(end - p1) =~= b@.skip(end as int));
        if field == ENTRY_FIELD {
            let data = copy_range(b, p2, end);
            assert(data@ =~= rest.subrange(p2 - p1, end - p1));
            acc.entries.push(data);
            assert(acc@.entries =~= old(acc)@.entries.push(data@));
        }
        Some(end)
    } else if wire_type == 1 && field > ENTRY_FIELD && b.len() - p1 >= 8 {
        assert(rest.skip(8) =~= b@.skip(p1 + 8));
        Some(p1 + 8)
    } else if wire_type == 5 && field > ENTRY_FIELD && b.len() - p1 >= 4 {
        assert(rest.skip(4) =~= b@.skip(p1 + 4));
        Some(p1 + 4)
    } else {
        None
    }
}

/// Decodes a payload from its signed bytes; `None` where they do not hold one.
pub fn decode_payload(b: &[u8]) -> (r: Option<Payload>)
    ensures
        match payload_of(b@) {
            Some(p) => r matches Some(x) && x@ == p,
            None => r is None,
        },
{
    let mut acc = Payload { timestamp: 0, ttl: 0, entries: Vec::new() };
    let mut pos: usize = 0;
    assert(b@.skip(0) =~= b@);
    assert(acc@.entries =~= Seq::<Seq<u8>>::empty());
    while pos < b.len()
        invariant
            pos <= b.len(),
            payload_of(b@) == payload_fields(b@.skip(pos as int), acc@),
        decreases b.len() - pos,
    {
        match decode_field(b, pos, &mut acc) {
            Some(p) => pos = p,
            None => return None,
        }
    }
    assert(b@.skip(pos as int) =~= Seq::<u8>::empty());
    Some(acc)
}

/// Key bytes of the payload's timestamp and time to live (varints) and of an
/// entry (length-delimited).
pub const TIMESTAMP_KEY: u8 = 0x08;
pub const TTL_KEY: u8 = 0x10;
pub const ENTRY_KEY: u8 = 0x1a;

/// The encoded entries, each a length-delimited field 3, in order.
pub open spec fn entries_bytes(es: Seq<Seq<u8>>) -> Seq<u8>
    decreases es.len(),
{
    if es.len() == 0 {
        Seq::empty()
    } else {
        entries_bytes(es.drop_last()) + field_bytes(ENTRY_KEY, es.last())
    }
}

/// The encoded form of a payload: timestamp, time to live, then the entries.
pub open spec fn payload_bytes(p: PayloadModel) -> Seq<u8> {
    seq![TIMESTAMP_KEY] + varint_bytes(p.timestamp as u64) + seq![TTL_KEY] + varint_bytes(
        p.ttl as u64,
    ) + entries_bytes(p.entries)
}

/// Encodes a payload, as a client does before signing it.
pub fn encode_payload(p: &Payload) -> (r: Vec<u8>)
    ensures
        r@ == payload_bytes(p@),
{
    let mut buf: Vec<u8> = Vec::new();
    buf.push(TIMESTAMP_KEY);
    put_varint(#[verifier::truncate] (p.timestamp as u64), &mut buf);
    buf.push(TTL_KEY);
    put_varint(#[verifier::truncate] (p.ttl as u64), &mut buf);
    let ghost head = buf@;
    let ghost es = p@.entries;
    assert(es.take(0) =~= Seq::<Seq<u8>>::empty());
    let mut i: usize = 0;
    while i < p.entries.len()
        invariant
            i <= p.entries.len(),
            es == p@.entries,
            es.len() == p.entries@.len(),
            buf@ == head + entries_bytes(es.take(i as int)),
        decreases p.entries.len() - i,
    {
        put_field(&mut buf, ENTRY_KEY, p.entries[i].as_slice());
        assert(es.take(i + 1).drop_last() =~= es.take(i as int));
        assert(es.take(i + 1).last() == p.entries@[i as int]@);
        assert(buf@ =~= head + entries_bytes(es.take(i + 1)));
        i = i + 1;
    }
    assert(es.take(i as int) =~= es);
    assert(buf@ =~= payload_bytes(p@));
    buf
}

proof fn lemma_entries_front(es: Seq<Seq<u8>>)
    requires
        es.len() > 0,
    ensures
        entries_bytes(es) == field_bytes(ENTRY_KEY, es[0]) + entries_bytes(es.skip(1)),
    decreases es.len(),
{
    if es.len() == 1 {
        assert(es.drop_last() =~= Seq::<Seq<u8>>::empty());
        assert(es.skip(1) =~= Seq::<Seq<u8>>::empty());
        assert(entries_bytes(es) =~= field_bytes(ENTRY_KEY, es[0]) + entries_bytes(es.skip(1)));
    } else {
        let dl = es.drop_last();
        lemma_entries_front(dl);
        assert(es.skip(1).drop_last() =~= dl.skip(1));
        assert(es.skip(1).last() == es.last());
        assert(dl[0] == es[0]);
        assert(entries_bytes(es) =~= field_bytes(ENTRY_KEY, es[0]) + entries_bytes(es.skip(1)));
    }
}

proof fn lemma_small_varint(s: Seq<u8>)
    requires
        s.len() > 0,
        s[0] < 128,
    ensures
        varint_read(s) == Some((s[0] as u64, 1nat)),
{
}

proof fn lemma_entries_parse(es: Seq<Seq<u8>>, acc: PayloadModel)
    requires
        forall|i: int| 0 <= i < es.len() ==> (#[trigger] es[i]).len() <= u64::MAX,
    ensures
        payload_fields(entries_bytes(es), acc) == Some(PayloadModel { entries: acc.entries + es, ..acc }),
    decreases es.len(),
{
    if es.len() == 0 {
        assert(acc.entries + es =~= acc.entries);
    } else {
        lemma_entries_front(es);
        let e = es[0];
        let rest = entries_bytes(es.skip(1));
        let s = entries_bytes(es);
        lemma_small_varint(s);
        let r1 = s.skip(1);
        let vb = varint_bytes(e.len() as u64);
        assert(r1 =~= vb + (e + rest));
        lemma_varint_round_trip(e.len() as u64, e + rest);
        assert(r1.subrange(vb.len() as int, vb.len() + e.len() as int) =~= e);
        assert(r1.skip(vb.len() + e.len() as int) =~= rest);
        let acc1 = PayloadModel { entries: acc.entries.push(e), ..acc };
        assert(payload_fields(s, acc) == payload_fields(rest, acc1));
        lemma_entries_parse(es.skip(1), acc1);
        assert(acc1.entries + es.skip(1) =~= acc.entries + es);
    }
}

/// Decoding the encoding of a payload gives the payload back.
pub proof fn lemma_payload_round_trip(p: PayloadModel)
    requires
        forall|i: int| 0 <= i < p.entries.len() ==> (#[trigger] p.entries[i]).len() <= u64::MAX,
    ensures
        payload_of(payload_bytes(p)) == Some(p),
{
    let ts = p.timestamp;
    let ttl = p.ttl;
    let vt = varint_bytes(ts as u64);
    let vl = varint_bytes(ttl as u64);
    let eb = entries_bytes(p.entries);
    let s = payload_bytes(p);
    let acc0 = PayloadModel { timestamp: 0, ttl: 0, entries: Seq::empty() };
    let acc1 = PayloadModel { timestamp: ts, ..acc0 };
    let acc2 = PayloadModel { ttl: ttl, ..acc1 };
    let s1 = seq![TTL_KEY] + vl + eb;
    lemma_small_varint(s);
    assert(s.skip(1) =~= vt + s1);
    lemma_varint_round_trip(ts as u64, s1);
    assert(s.skip(1).skip(vt.len() as int) =~= s1);
    assert(ts as u64 as i64 == ts) by (bit_vector);
    assert(payload_fields(s, acc0) == payload_fields(s1, acc1));
    lemma_small_varint(s1);
    assert(s1.skip(1) =~= vl + eb);
    lemma_varint_round_trip(ttl as u64, eb);
    assert(s1.skip(1).skip(vl.len() as int) =~= eb);
    assert(ttl as u64 as i64 == ttl) by (bit_vector);
    assert(payload_fields(s1, acc1) == payload_fields(eb, acc2));
    lemma_entries_parse(p.entries, acc2);
    assert(Seq::<Seq<u8>>::empty() + p.entries =~= p.entries);
}

} // verus!
