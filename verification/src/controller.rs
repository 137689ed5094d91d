//! The shared work queue and the reassembly of completed pieces.
//!
//! The queue is seeded with one item per piece. Workers pop from the head
//! and, on failure or a peer-miss, push the item back on the tail; an item
//! is consumed only when the piece it names has been assembled.

use vstd::prelude::*;
use vstd::seq_lib::lemma_multiset_commutative;
use std::collections::VecDeque;
use crate::torrent_file::{
    TorrentFile,
    spec_piece_end,
    spec_piece_size,
    spec_piece_start,
    spec_wf,
};
use vstd::arithmetic::mul::lemma_mul_inequality;

verus! {

/// One piece waiting to be fetched.
#[derive(Debug)]
pub struct PieceWork {
    pub index: usize,
    pub hash: Vec<u8>,
    pub length: usize,
}

/// One piece fetched and validated, ready to be assembled.
#[derive(Debug)]
pub struct PieceResult {
    pub index: usize,
    pub buf: Vec<u8>,
}

/// A worker's connection event: `connected` for the peer named by `id`
/// (an IPv4 address packed into its four big-endian bytes).
pub struct WorkerStatusMessage {
    pub connected: bool,
    pub id: u32,
}

/// The item's fields fit the wire protocol: a 20-byte hash, and an index
/// and length that fit the u32 fields of Request messages.
pub open spec fn spec_piece_work_wf(w: PieceWork) -> bool {
    &&& w.hash@.len() == 20
    &&& w.index <= u32::MAX
    &&& 1 <= w.length <= u32::MAX
}

/// The item describes piece `i` of the descriptor `t`.
pub open spec fn spec_piece_work_for(w: PieceWork, t: TorrentFile, i: int) -> bool {
    &&& w.index == i
    &&& w.hash@ == t.piece_hashes@[i]@
    &&& w.length == spec_piece_size(t, i)
}

/// Copies a byte vector.
pub fn copy_bytes(src: &Vec<u8>) -> (r: Vec<u8>)
    ensures
        r@ == src@,
{
    let mut r: Vec<u8> = Vec::new();
    crate::message::push_bytes(&mut r, src);
    r
}

/// Seeds the queue with one work item per piece, in index order.
pub fn build_work_queue(torrent: &TorrentFile) -> (q: VecDeque<PieceWork>)
    requires
        spec_wf(*torrent),
    ensures
        q@.len() == torrent.piece_hashes@.len(),
        forall|i: int|
            0 <= i < q@.len() ==> spec_piece_work_for(#[trigger] q@[i], *torrent, i)
                && spec_piece_work_wf(q@[i]),
{
    let mut q: VecDeque<PieceWork> = VecDeque::new();
    let mut index: usize = 0;
    while index < torrent.piece_hashes.len()
        invariant
            spec_wf(*torrent),
            index <= torrent.piece_hashes@.len(),
            q@.len() == index,
            forall|i: int|
                0 <= i < q@.len() ==> spec_piece_work_for(#[trigger] q@[i], *torrent, i)
                    && spec_piece_work_wf(q@[i]),
        decreases torrent.piece_hashes@.len() - index,
    {
        let length = torrent.calculate_piece_size(index);
        let hash = copy_bytes(&torrent.piece_hashes[index]);
        q.push_back(PieceWork { index, hash, length });
        index = index + 1;
    }
    q
}

/// Takes the item at the head of the queue, if any.
pub fn pop_work(queue: &mut VecDeque<PieceWork>) -> (r: Option<PieceWork>)
    ensures
        match r {
            Some(w) => {
                &&& old(queue)@.len() > 0
                &&& w == old(queue)@[0]
                &&& final(queue)@ == old(queue)@.drop_first()
            },
            None => {
                &&& old(queue)@.len() == 0
                &&& final(queue)@ == old(queue)@
            },
        },
{
    let r = queue.pop_front();
    proof {
        if old(queue)@.len() > 0 {
            assert(queue@ =~= old(queue)@.drop_first());
        }
    }
    r
}

/// Puts an item back on the tail of the queue, where other workers reach
/// it before this one sees it again.
pub fn requeue_work(queue: &mut VecDeque<PieceWork>, work: PieceWork)
    ensures
        final(queue)@ == old(queue)@.push(work),
{
    queue.push_back(work);
}

/// Popping the head and pushing it back on the tail loses nothing: the
/// queue holds exactly the items it held before, the popped one now last.
pub proof fn lemma_requeue_preserves_work(q: Seq<PieceWork>)
    requires
        q.len() > 0,
    ensures
        q.drop_first().push(q[0]).to_multiset() == q.to_multiset(),
        q.drop_first().push(q[0]).last() == q[0],
{
    broadcast use vstd::multiset::group_multiset_axioms;

    let rest = q.drop_first();
    let head = seq![q[0]];
    assert(q =~= head + rest);
    lemma_multiset_commutative(head, rest);
    lemma_multiset_commutative(rest, head);
    assert(head.to_multiset().add(rest.to_multiset()) =~= rest.to_multiset().add(
        head.to_multiset(),
    ));
    assert(rest + head =~= rest.push(q[0]));
}

/// Writes a completed piece into the artifact buffer at the piece's byte
/// range, touching no other byte.
pub fn write_piece(buf: &mut Vec<u8>, torrent: &TorrentFile, result: &PieceResult)
    requires
        spec_wf(*torrent),
        old(buf)@.len() == torrent.length,
        result.index < torrent.piece_hashes@.len(),
        result.buf@.len() == spec_piece_size(*torrent, result.index as int),
    ensures
        final(buf)@.len() == old(buf)@.len(),
        forall|k: int|
            spec_piece_start(*torrent, result.index as int) <= k < spec_piece_end(
                *torrent,
                result.index as int,
            ) ==> final(buf)@[k] == result.buf@[k - spec_piece_start(
                *torrent,
                result.index as int,
            )],
        forall|k: int|
            0 <= k < old(buf)@.len() && !(spec_piece_start(*torrent, result.index as int) <= k
                < spec_piece_end(*torrent, result.index as int)) ==> final(buf)@[k] == old(
                buf,
            )@[k],
{
    let (start, end) = torrent.calculate_bound_for_piece(result.index);
    let mut j: usize = 0;
    while j < result.buf.len()
        invariant
            start + result.buf@.len() == end,
            end <= buf@.len(),
            j <= result.buf@.len(),
            buf@.len() == old(buf)@.len(),
            forall|k: int| start <= k < start + j ==> buf@[k] == result.buf@[k - start],
            forall|k: int|
                0 <= k < buf@.len() && !(start <= k < start + j) ==> buf@[k] == old(buf)@[k],
        decreases result.buf@.len() - j,
    {
        buf[start + j] = result.buf[j];
        j = j + 1;
    }
}

/// Two distinct pieces occupy disjoint byte ranges of the artifact.
pub proof fn lemma_piece_ranges_disjoint(t: TorrentFile, i: int, j: int)
    requires
        spec_wf(t),
        0 <= i < j < t.piece_hashes@.len(),
    ensures
        spec_piece_end(t, i) <= spec_piece_start(t, j),
{
    lemma_mul_inequality(i + 1, j, t.piece_length as int);
    assert((i + 1) * (t.piece_length as int) == i * (t.piece_length as int) + t.piece_length)
        by (nonlinear_arith);
}

/// The rolling progress figure: bytes seen in the window, scaled to
/// kilobytes per second.
pub fn bandwidth_kilobytes_per_sec(window_bytes: u64, window_secs: u64) -> (r: u64)
    requires
        window_secs > 0,
    ensures
        r == window_bytes / window_secs / 1000,
{
    window_bytes / window_secs / 1000
}

} // verus!
