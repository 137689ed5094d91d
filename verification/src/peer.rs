//! The 68-byte handshake and the first exchange on a fresh connection.
//!
//! A handshake is `[19, "BitTorrent protocol", 8 zero bytes, the 20-byte
//! info-hash, the 20-byte peer id]`. The reply must carry the same
//! info-hash at bytes 28..48; the remote peer id is not checked.

use vstd::prelude::*;
use crate::message::{Message, MessageView};
use crate::worker::{PieceProgress, State, WorkerError};

verus! {

/// "BitTorrent protocol" in ASCII: the 19-byte protocol string.
pub open spec fn spec_pstr() -> Seq<u8> {
    seq![
        66u8, 105u8, 116u8, 84u8, 111u8, 114u8, 114u8, 101u8, 110u8, 116u8, 32u8, 112u8, 114u8,
        111u8, 116u8, 111u8, 99u8, 111u8, 108u8,
    ]
}

/// The whole 68-byte handshake for the given info-hash and peer id.
pub open spec fn spec_handshake(info_hash: Seq<u8>, peer_id: Seq<u8>) -> Seq<u8> {
    seq![19u8] + spec_pstr() + seq![0u8, 0u8, 0u8, 0u8, 0u8, 0u8, 0u8, 0u8] + info_hash + peer_id
}

/// Builds the handshake frame sent right after the TCP connect.
pub fn build_handshake(info_hash: &Vec<u8>, peer_id: &Vec<u8>) -> (r: Vec<u8>)
    requires
        info_hash@.len() == 20,
        peer_id@.len() == 20,
    ensures
        r@ == spec_handshake(info_hash@, peer_id@),
        r@.len() == 68,
{
    let mut r: Vec<u8> = Vec::new();
    r.push(19);
    let mut pstr: Vec<u8> = Vec::new();
    pstr.push(66);
    pstr.push(105);
    pstr.push(116);
    pstr.push(84);
    pstr.push(111);
    pstr.push(114);
    pstr.push(114);
    pstr.push(101);
    pstr.push(110);
    pstr.push(116);
    pstr.push(32);
    pstr.push(112);
    pstr.push(114);
    pstr.push(111);
    pstr.push(116);
    pstr.push(111);
    pstr.push(99);
    pstr.push(111);
    pstr.push(108);
    proof {
        assert(pstr@ =~= spec_pstr());
    }
    crate::message::push_bytes(&mut r, &pstr);
    let mut i: usize = 0;
    while i < 8
        invariant
            i <= 8,
            r@ == seq![19u8] + spec_pstr() + Seq::new(i as nat, |j: int| 0u8),
        decreases 8 - i,
    {
        r.push(0);
        i = i + 1;
        proof {
            assert(r@ =~= seq![19u8] + spec_pstr() + Seq::new(i as nat, |j: int| 0u8));
        }
    }
    crate::message::push_bytes(&mut r, info_hash);
    crate::message::push_bytes(&mut r, peer_id);
    proof {
        assert(Seq::new(8, |j: int| 0u8) =~= seq![0u8, 0u8, 0u8, 0u8, 0u8, 0u8, 0u8, 0u8]);
        assert(r@ =~= spec_handshake(info_hash@, peer_id@));
    }
    r
}

/// The reply carries our info-hash at bytes 28..48.
pub fn check_handshake_reply(response: &Vec<u8>, info_hash: &Vec<u8>) -> (r: bool)
    requires
        response@.len() == 68,
        info_hash@.len() == 20,
    ensures
        r == (response@.subrange(28, 48) == info_hash@),
{
    let mut i: usize = 0;
    while i < 20
        invariant
            response@.len() == 68,
            info_hash@.len() == 20,
            i <= 20,
            forall|j: int| 0 <= j < i ==> response@[28 + j] == info_hash@[j],
        decreases 20 - i,
    {
        if response[28 + i] != info_hash[i] {
            proof {
                assert(response@.subrange(28, 48)[i as int] != info_hash@[i as int]);
            }
            return false;
        }
        i = i + 1;
    }
    proof {
        assert(response@.subrange(28, 48) =~= info_hash@);
    }
    true
}

/// Turns the first framed message of a bootstrapped connection into the
/// worker's initial state: the message must be the peer's Bitfield, and
/// the connection starts choked with no piece in progress.
pub fn init_connection(message: Message) -> (r: Result<State, WorkerError>)
    ensures
        match message@ {
            MessageView::Bitfield(bits) => r matches Ok(st) && st.bitfield@ == bits
                && st.peer_choking == true && st.piece_progress.buf@.len() == 0
                && st.piece_progress.num_downloaded_bytes == 0
                && st.piece_progress.num_requested_bytes == 0
                && st.piece_progress.backlog_length == 0,
            _ => r == Err::<State, WorkerError>(WorkerError::ExpectedBitfield),
        },
{
    match message {
        Message::Bitfield(payload) => Ok(
            State {
                piece_progress: PieceProgress {
                    buf: Vec::new(),
                    num_downloaded_bytes: 0,
                    num_requested_bytes: 0,
                    backlog_length: 0,
                },
                bitfield: payload,
                peer_choking: true,
            },
        ),
        _ => Err(WorkerError::ExpectedBitfield),
    }
}

} // verus!
