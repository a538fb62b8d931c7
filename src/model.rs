use vstd::prelude::*;

verus! {

/// A storage identifier: the body of an address, that is the hash of a public key.
pub struct Address {
    pub body: Vec<u8>,
}

impl Address {
    pub fn from_body(body: Vec<u8>) -> (r: Address)
        ensures
            r.body@ == body@,
    {
        Address { body }
    }

    /// The raw bytes under which records of this address are stored.
    pub fn as_body(&self) -> (r: &[u8])
        ensures
            r@ == self.body@,
    {
        self.body.as_slice()
    }
}

/// Mathematical form of a raw record.
pub struct MetadataModel {
    pub pub_key: Seq<u8>,
    pub serialized_payload: Seq<u8>,
    pub signature: Seq<u8>,
    pub scheme: i32,
}

/// A raw record: a public key, the exact payload bytes it signed, the signature,
/// and the identifier of the signature scheme.
pub struct AddressMetadata {
    pub pub_key: Vec<u8>,
    pub serialized_payload: Vec<u8>,
    pub signature: Vec<u8>,
    pub scheme: i32,
}

impl View for AddressMetadata {
    type V = MetadataModel;

    open spec fn view(&self) -> MetadataModel {
        MetadataModel {
            pub_key: self.pub_key@,
            serialized_payload: self.serialized_payload@,
            signature: self.signature@,
            scheme: self.scheme,
        }
    }
}

impl Clone for AddressMetadata {
    fn clone(&self) -> (r: AddressMetadata)
        ensures
            r@ == self@,
    {
        AddressMetadata {
            pub_key: self.pub_key.clone(),
            serialized_payload: self.serialized_payload.clone(),
            signature: self.signature.clone(),
            scheme: self.scheme,
        }
    }
}

/// Mathematical form of a payload.
pub struct PayloadModel {
    pub timestamp: i64,
    pub ttl: i64,
    pub entries: Seq<Seq<u8>>,
}

impl PayloadModel {
    /// The expiry predicate: the record is past its time to live at `now`.
    /// The sum is taken over the integers, without clamping.
    pub open spec fn expired_at(self, now: int) -> bool {
        self.timestamp + self.ttl < now
    }
}

/// The signed content of a record: its creation time and time to live, in
/// seconds, and the application entries, kept as their encoded bytes.
pub struct Payload {
    pub timestamp: i64,
    pub ttl: i64,
    pub entries: Vec<Vec<u8>>,
}

impl View for Payload {
    type V = PayloadModel;

    open spec fn view(&self) -> PayloadModel {
        PayloadModel {
            timestamp: self.timestamp,
            ttl: self.ttl,
            entries: self.entries@.map_values(|e: Vec<u8>| e@),
        }
    }
}

/// Decides the expiry predicate for a given time in seconds since the epoch.
pub fn expired_at(payload: &Payload, now: i64) -> (r: bool)
    ensures
        r == payload@.expired_at(now as int),
{
    (payload.timestamp as i128) + (payload.ttl as i128) < now as i128
}

/// Relies on std::time::SystemTime: the seconds since the Unix epoch, or nothing
/// where the clock stands before it.
#[verifier::external_body]
fn unix_seconds() -> (r: Option<u64>) {
    std::time::SystemTime::now().duration_since(std::time::UNIX_EPOCH).ok().map(|d| d.as_secs())
}

/// Seconds since the epoch as an `i64`, from a clock reading: a clock set
/// before the epoch (no reading) gives zero, one beyond the range of `i64` its
/// largest value.
pub fn seconds_of(reading: Option<u64>) -> (r: i64)
    ensures
        r == (match reading {
            Some(s) => if s <= i64::MAX as u64 {
                s as i64
            } else {
                i64::MAX
            },
            None => 0i64,
        }),
{
    match reading {
        Some(s) => {
            if s > i64::MAX as u64 {
                i64::MAX
            } else {
                s as i64
            }
        },
        None => 0,
    }
}

/// The wall clock in whole seconds since the epoch, as `seconds_of` reads it.
pub fn now_seconds() -> (r: i64)
    ensures
        r >= 0,
{
    seconds_of(unix_seconds())
}

/// Whether the payload is past its time to live now, by the wall clock.
pub fn expired(payload: &Payload) -> (r: bool)
    ensures
        exists|now: int| 0 <= now <= i64::MAX && r == payload@.expired_at(now),
{
    let now = now_seconds();
    expired_at(payload, now)
}

} // verus!
