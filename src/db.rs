//! The decisions of the persistent store: what a read returns, and what the
//! storage engine's compaction keeps. Both go by the one expiry predicate.
use vstd::prelude::*;

use crate::model::{expired_at, now_seconds, AddressMetadata, MetadataModel};
use crate::wire::{decode_metadata, decode_payload, metadata_bytes, metadata_of, payload_of};

verus! {

/// What compaction does with a stored entry.
#[derive(Debug, Clone, Copy, PartialEq, Eq, Structural)]
pub enum CompactionDecision {
    Keep,
    Remove,
}

/// Compaction removes an entry only when it decodes and its payload is expired
/// at `now`; an entry that does not decode is kept for inspection.
pub open spec fn filter_decision(value: Seq<u8>, now: int) -> CompactionDecision {
    match metadata_of(value) {
        Some(m) => match payload_of(m.serialized_payload) {
            Some(p) => if p.expired_at(now) {
                CompactionDecision::Remove
            } else {
                CompactionDecision::Keep
            },
            None => CompactionDecision::Keep,
        },
        None => CompactionDecision::Keep,
    }
}

/// The compaction decision for a stored value at time `now`.
pub fn ttl_decision(value: &[u8], now: i64) -> (r: CompactionDecision)
    ensures
        r == filter_decision(value@, now as int),
{
    let metadata = match decode_metadata(value) {
        Some(m) => m,
        None => return CompactionDecision::Keep,
    };
    let payload = match decode_payload(metadata.serialized_payload.as_slice()) {
        Some(p) => p,
        None => return CompactionDecision::Keep,
    };
    if expired_at(&payload, now) {
        CompactionDecision::Remove
    } else {
        CompactionDecision::Keep
    }
}

/// The compaction filter that the storage engine runs on each entry, against the
/// wall clock at the moment it runs.
pub fn ttl_filter(_level: u32, _key: &[u8], value: &[u8]) -> (r: CompactionDecision)
    ensures
        exists|now: int| 0 <= now <= i64::MAX && r == filter_decision(value@, now),
{
    let now = now_seconds();
    ttl_decision(value, now)
}

/// What a read of an address finds, as a spec value.
pub enum LookupModel {
    Absent,
    Live(MetadataModel),
    Expired,
    Corrupt,
}

/// What a read of an address finds.
pub enum ReadOutcome {
    /// Nothing is stored under the address.
    Absent,
    /// The stored record, within its time to live.
    Live(AddressMetadata),
    /// The stored record is past its time to live: it must be deleted and the
    /// read answered with "not found".
    Expired,
    /// The stored bytes do not decode: the store is damaged.
    Corrupt,
}

impl View for ReadOutcome {
    type V = LookupModel;

    open spec fn view(&self) -> LookupModel {
        match self {
            ReadOutcome::Absent => LookupModel::Absent,
            ReadOutcome::Live(m) => LookupModel::Live(m@),
            ReadOutcome::Expired => LookupModel::Expired,
            ReadOutcome::Corrupt => LookupModel::Corrupt,
        }
    }
}

/// The outcome of reading `stored` (the value under an address, if any) at `now`.
pub open spec fn lookup(stored: Option<Seq<u8>>, now: int) -> LookupModel {
    match stored {
        None => LookupModel::Absent,
        Some(v) => match metadata_of(v) {
            None => LookupModel::Corrupt,
            Some(m) => match payload_of(m.serialized_payload) {
                None => LookupModel::Corrupt,
                Some(p) => if p.expired_at(now) {
                    LookupModel::Expired
                } else {
                    LookupModel::Live(m)
                },
            },
        },
    }
}

pub open spec fn bytes_view(stored: Option<&[u8]>) -> Option<Seq<u8>> {
    match stored {
        Some(v) => Some(v@),
        None => None,
    }
}

/// Decides what a read returns, given the value stored under the address.
pub fn read_outcome(stored: Option<&[u8]>, now: i64) -> (r: ReadOutcome)
    ensures
        r@ == lookup(bytes_view(stored), now as int),
{
    let value = match stored {
        Some(v) => v,
        None => return ReadOutcome::Absent,
    };
    let metadata = match decode_metadata(value) {
        Some(m) => m,
        None => return ReadOutcome::Corrupt,
    };
    let payload = match decode_payload(metadata.serialized_payload.as_slice()) {
        Some(p) => p,
        None => return ReadOutcome::Corrupt,
    };
    if expired_at(&payload, now) {
        ReadOutcome::Expired
    } else {
        ReadOutcome::Live(metadata)
    }
}

/// The bytes that a write stores for a record.
pub fn put_value(metadata: &AddressMetadata) -> (r: Vec<u8>)
    ensures
        r@ == metadata_bytes(metadata@),
{
    crate::wire::encode_metadata(metadata)
}

/// The store as a map from address bodies to stored values, after a write.
pub open spec fn store_put(
    store: Map<Seq<u8>, Seq<u8>>,
    addr: Seq<u8>,
    m: MetadataModel,
) -> Map<Seq<u8>, Seq<u8>> {
    store.insert(addr, metadata_bytes(m))
}

/// What a read of `addr` finds in the store at `now`.
pub open spec fn store_get(store: Map<Seq<u8>, Seq<u8>>, addr: Seq<u8>, now: int) -> LookupModel {
    lookup(
        if store.contains_key(addr) {
            Some(store[addr])
        } else {
            None
        },
        now,
    )
}

pub open spec fn fits(m: MetadataModel) -> bool {
    &&& m.pub_key.len() <= u64::MAX
    &&& m.serialized_payload.len() <= u64::MAX
    &&& m.signature.len() <= u64::MAX
}

/// A read right after a write gives back the record written, unchanged, while
/// its payload is within its time to live.
pub proof fn lemma_round_trip(store: Map<Seq<u8>, Seq<u8>>, addr: Seq<u8>, m: MetadataModel, now: int)
    requires
        fits(m),
        payload_of(m.serialized_payload) matches Some(p) && !p.expired_at(now),
    ensures
        store_get(store_put(store, addr, m), addr, now) == LookupModel::Live(m),
{
    crate::wire::lemma_metadata_round_trip(m);
}

/// A write does not look at expiry, and a read right after the write of an
/// expired record finds it expired, so answers "not found".
pub proof fn lemma_eager_expiry(store: Map<Seq<u8>, Seq<u8>>, addr: Seq<u8>, m: MetadataModel, now: int)
    requires
        fits(m),
        payload_of(m.serialized_payload) matches Some(p) && p.expired_at(now),
    ensures
        store_put(store, addr, m).contains_key(addr),
        store_get(store_put(store, addr, m), addr, now) == LookupModel::Expired,
{
    crate::wire::lemma_metadata_round_trip(m);
}

/// Compaction removes a stored record exactly when its payload is expired at
/// the time it runs, and it removes only what a read would find expired.
pub proof fn lemma_compaction(m: MetadataModel, now: int)
    requires
        fits(m),
        payload_of(m.serialized_payload) is Some,
    ensures
        (filter_decision(metadata_bytes(m), now) == CompactionDecision::Remove)
            <==> payload_of(m.serialized_payload)->Some_0.expired_at(now),
        (filter_decision(metadata_bytes(m), now) == CompactionDecision::Remove)
            <==> lookup(Some(metadata_bytes(m)), now) == LookupModel::Expired,
{
    crate::wire::lemma_metadata_round_trip(m);
}

/// Whatever the value, compaction removes it only where a read would find it
/// expired: the two paths never disagree.
pub proof fn lemma_paths_agree(value: Seq<u8>, now: int)
    ensures
        filter_decision(value, now) == CompactionDecision::Remove ==> lookup(Some(value), now)
            == LookupModel::Expired,
{
}

/// A second write to an address replaces the first whole: the store is as if
/// only the second had been made, and a read sees the second record alone.
pub proof fn lemma_overwrite(
    store: Map<Seq<u8>, Seq<u8>>,
    addr: Seq<u8>,
    m1: MetadataModel,
    m2: MetadataModel,
    now: int,
)
    requires
        fits(m2),
    ensures
        store_put(store_put(store, addr, m1), addr, m2) == store_put(store, addr, m2),
        store_get(store_put(store_put(store, addr, m1), addr, m2), addr, now) == lookup(
            Some(metadata_bytes(m2)),
            now,
        ),
{
    assert(store_put(store_put(store, addr, m1), addr, m2) =~= store_put(store, addr, m2));
}

} // verus!
