//! Peer announcements carried in transactions: an `OP_RETURN` output that holds
//! the keyserver prefix, a peer's IPv4 address and port, the hash of a bitcoin
//! key, and the digest of that key's metadata.
use vstd::prelude::*;
use vstd::string::StringExecFns;

use bitcoincash_addr::{AddressCodec, Base58Codec, HashType, Network};

use crate::wire::copy_range;

verus! {

/// The prefix that marks an announcement, after the `OP_RETURN` opcode.
pub const KEYSERVER_PREFIX: [u8; 9] = [0x6b, 0x65, 0x79, 0x73, 0x65, 0x72, 0x76, 0x65, 0x72];

pub const OP_RETURN: u8 = 0x6a;

/// Length of an announcement script: opcode, prefix, address and port, key hash,
/// metadata digest.
pub const ANNOUNCEMENT_LEN: usize = 56;

/// The decimal digits of `n`, most significant first, with no leading zero.
pub open spec fn decimal_digits(n: nat) -> Seq<char>
    decreases n,
{
    if n < 10 {
        seq![(48 + n) as char]
    } else {
        decimal_digits(n / 10) + seq![(48 + n % 10) as char]
    }
}

/// Relies on the `Display` of `u16` through `ToString`: its decimal digits.
#[verifier::external_body]
fn decimal_string(n: u16) -> (r: String)
    ensures
        r@ == decimal_digits(n as nat),
{
    n.to_string()
}

/// The base58check form of a mainnet pay-to-key-hash address with body `raw`.
pub uninterp spec fn base58_key_address_of(raw: Seq<u8>) -> Seq<char>;

/// Relies on bitcoincash_addr's Base58Codec::encode for a key hash on the main
/// network, which never fails.
#[verifier::external_body]
fn base58_key_address(raw: &[u8]) -> (r: Option<String>)
    ensures
        r is Some,
        r is Some ==> r->Some_0@ == base58_key_address_of(raw@),
{
    Base58Codec::encode(raw, HashType::Key, Network::Main).ok()
}

/// The text form of an IPv4 socket address: four decimal octets separated by
/// dots, a colon, the decimal port.
pub open spec fn socket_text(ip: Seq<u8>, port: u16) -> Seq<char>
    recommends
        ip.len() == 4,
{
    decimal_digits(ip[0] as nat) + seq!['.'] + decimal_digits(ip[1] as nat) + seq!['.']
        + decimal_digits(ip[2] as nat) + seq!['.'] + decimal_digits(ip[3] as nat) + seq![':']
        + decimal_digits(port as nat)
}

/// Whether `script` is an announcement.
pub open spec fn is_announcement(script: Seq<u8>) -> bool {
    &&& script.len() == ANNOUNCEMENT_LEN
    &&& script[0] == OP_RETURN
    &&& script.subrange(1, 10) == KEYSERVER_PREFIX@
}

/// What an announcement holds: the peer's socket address as text, the key's
/// address in base58check, and the metadata digest.
pub open spec fn announcement(script: Seq<u8>) -> (Seq<char>, Seq<char>, Seq<u8>) {
    (
        socket_text(script.subrange(10, 14), (script[14] as int * 256 + script[15] as int) as u16),
        base58_key_address_of(script.subrange(16, 36)),
        script.subrange(36, 56),
    )
}

fn push_decimal(s: &mut String, n: u16)
    ensures
        final(s)@ == old(s)@ + decimal_digits(n as nat),
{
    let d = decimal_string(n);
    s.append(d.as_str());
}

fn push_text(s: &mut String, t: &str)
    ensures
        final(s)@ == old(s)@ + t@,
{
    s.append(t);
}

/// Reads the peer, key address and metadata digest out of the first output
/// script of a transaction; `None` where the script is no announcement.
pub fn extract_details(script: &[u8]) -> (r: Option<(String, String, Vec<u8>)>)
    ensures
        is_announcement(script@) ==> (r matches Some((peer, addr, digest)) && (
        peer@,
        addr@,
        digest@,
        ) == announcement(script@)),
        !is_announcement(script@) ==> r is None,
{
    if script.len() != ANNOUNCEMENT_LEN || script[0] != OP_RETURN {
        return None;
    }
    let mut i: usize = 0;
    while i < 9
        invariant
            script@.len() == ANNOUNCEMENT_LEN,
            i <= 9,
            forall|j: int| 0 <= j < i ==> script@[1 + j] == KEYSERVER_PREFIX@[j],
        decreases 9 - i,
    {
        if script[1 + i] != KEYSERVER_PREFIX[i] {
            assert(script@.subrange(1, 10)[i as int] != KEYSERVER_PREFIX@[i as int]);
            return None;
        }
        i = i + 1;
    }
    assert(script@.subrange(1, 10) =~= KEYSERVER_PREFIX@);
    let port: u16 = script[14] as u16 * 256 + script[15] as u16;
    let mut peer = String::new();
    proof {
        reveal_strlit(".");
        reveal_strlit(":");
    }
    push_decimal(&mut peer, script[10] as u16);
    push_text(&mut peer, ".");
    push_decimal(&mut peer, script[11] as u16);
    push_text(&mut peer, ".");
    push_decimal(&mut peer, script[12] as u16);
    push_text(&mut peer, ".");
    push_decimal(&mut peer, script[13] as u16);
    push_text(&mut peer, ":");
    push_decimal(&mut peer, port);
    let raw = copy_range(script, 16, 36);
    let addr = match base58_key_address(raw.as_slice()) {
        Some(a) => a,
        None => return None,
    };
    let digest = copy_range(script, 36, 56);
    let ghost ip = script@.subrange(10, 14);
    assert(ip[0] == script@[10] && ip[1] == script@[11] && ip[2] == script@[12] && ip[3] == script@[13]);
    assert(peer@ =~= socket_text(ip, port));
    Some((peer, addr, digest))
}

} // verus!
