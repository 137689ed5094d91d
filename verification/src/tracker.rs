//! Peer endpoints, as the tracker hands them out: a compact byte string
//! of 6-byte records, four IPv4 octets then a big-endian port.

use vstd::prelude::*;
use crate::message::{spec_u32_from_be_bytes, u32_from_be_at};

verus! {

/// One peer endpoint. The address is the IPv4 address packed into a u32,
/// most significant octet first.
#[derive(Debug, Clone, Copy, PartialEq, Eq, Structural)]
pub struct Peer {
    pub ip: u32,
    pub port: u16,
}

impl Default for Peer {
    /// The unspecified endpoint, 0.0.0.0:0.
    fn default() -> (r: Peer)
        ensures
            r.ip == 0,
            r.port == 0,
    {
        Peer { ip: 0, port: 0 }
    }
}

/// The port of the `i`th compact record.
pub open spec fn spec_peer_port(bytes: Seq<u8>, i: int) -> u16 {
    ((bytes[6 * i + 4] as u16) << 8) | (bytes[6 * i + 5] as u16)
}

/// Splits the tracker's compact peer string into endpoints; `None`
/// exactly when the byte count is not a multiple of 6.
pub fn parse_compact_peers(bytes: &Vec<u8>) -> (r: Option<Vec<Peer>>)
    ensures
        match r {
            Some(peers) => {
                &&& bytes@.len() % 6 == 0
                &&& peers@.len() == bytes@.len() / 6
                &&& forall|i: int|
                    0 <= i < peers@.len() ==> #[trigger] peers@[i].ip == spec_u32_from_be_bytes(
                        bytes@.subrange(6 * i, 6 * i + 4),
                    ) && peers@[i].port == spec_peer_port(bytes@, i)
            },
            None => bytes@.len() % 6 != 0,
        },
{
    if bytes.len() % 6 != 0 {
        return None;
    }
    let num_peers = bytes.len() / 6;
    proof {
        vstd::arithmetic::div_mod::lemma_fundamental_div_mod(bytes@.len() as int, 6);
    }
    let mut peers: Vec<Peer> = Vec::new();
    let mut i: usize = 0;
    while i < num_peers
        invariant
            bytes@.len() == 6 * num_peers,
            6 * num_peers <= usize::MAX,
            i <= num_peers,
            peers@.len() == i,
            forall|k: int|
                0 <= k < i ==> #[trigger] peers@[k].ip == spec_u32_from_be_bytes(
                    bytes@.subrange(6 * k, 6 * k + 4),
                ) && peers@[k].port == spec_peer_port(bytes@, k),
        decreases num_peers - i,
    {
        let ip = u32_from_be_at(bytes.as_slice(), 6 * i);
        let port = ((bytes[6 * i + 4] as u16) << 8) | (bytes[6 * i + 5] as u16);
        peers.push(Peer { ip, port });
        i = i + 1;
    }
    Some(peers)
}

} // verus!
