//! The per-connection download state machine.
//!
//! One piece is driven to completion over one connection: block requests
//! are pipelined up to a bounded backlog, inbound messages update the
//! progress, and a finished buffer is released only when its SHA-1 matches
//! the piece hash.

use vstd::prelude::*;
use crate::controller::{copy_bytes, PieceResult, PieceWork, spec_piece_work_wf};
use crate::hashing::{bytes_eq, sha1_digest, sha1_of};
use crate::message::{Message, MessageView};

verus! {

/// The largest block asked of a peer in one Request.
pub const MAX_BLOCK_SIZE: usize = 16384;

/// The most requests left unanswered on one connection.
pub const MAX_BACKLOG: usize = 5;

/// Seconds granted to any one socket operation.
pub const TIMEOUT: u64 = 10;

/// Progress of the piece currently downloaded on one connection.
pub struct PieceProgress {
    pub buf: Vec<u8>,
    pub num_downloaded_bytes: usize,
    pub num_requested_bytes: usize,
    pub backlog_length: usize,
}

/// The private state of one worker's connection.
pub struct State {
    pub piece_progress: PieceProgress,
    pub bitfield: Vec<u8>,
    pub peer_choking: bool,
}

/// A failure local to one worker; the piece in flight goes back on the
/// queue and the worker reconnects.
#[derive(Debug, Clone, Copy, PartialEq, Eq, Structural)]
pub enum WorkerError {
    /// A Piece message carried fewer than 8 block bytes.
    PayloadTooShort,
    /// A Piece message named a piece other than the one in flight.
    WrongPiece,
    /// A Piece message's offset lies past the end of the buffer.
    OffsetTooHigh,
    /// A Piece message's block runs past the end of the buffer.
    DataTooLong,
    /// The peer sent a message the download loop does not accept.
    UnexpectedMessage,
    /// The first message of a connection was not a Bitfield.
    ExpectedBitfield,
    /// The completed buffer does not hash to the piece hash.
    IntegrityError,
}

impl Default for PieceProgress {
    /// An empty progress record: no buffer, nothing requested or received.
    fn default() -> (r: PieceProgress)
        ensures
            r.buf@.len() == 0,
            r.num_downloaded_bytes == 0,
            r.num_requested_bytes == 0,
            r.backlog_length == 0,
    {
        PieceProgress {
            buf: Vec::new(),
            num_downloaded_bytes: 0,
            num_requested_bytes: 0,
            backlog_length: 0,
        }
    }
}

/// The progress record is consistent with the piece in flight: the buffer
/// spans the piece, no more than the piece has been requested, and the
/// backlog stays within its bound.
pub open spec fn spec_progress_wf(p: PieceProgress, piece: PieceWork) -> bool {
    &&& p.buf@.len() == piece.length
    &&& p.num_requested_bytes <= piece.length
    &&& p.backlog_length <= MAX_BACKLOG
}

impl State {
    /// Resets the progress record for a fresh piece: a zeroed buffer of
    /// the piece's length and empty counters.
    pub fn begin_piece(&mut self, piece: &PieceWork)
        ensures
            final(self).piece_progress.buf@.len() == piece.length,
            forall|k: int|
                0 <= k < piece.length ==> final(self).piece_progress.buf@[k] == 0u8,
            final(self).piece_progress.num_downloaded_bytes == 0,
            final(self).piece_progress.num_requested_bytes == 0,
            final(self).piece_progress.backlog_length == 0,
            final(self).bitfield == old(self).bitfield,
            final(self).peer_choking == old(self).peer_choking,
            spec_progress_wf(final(self).piece_progress, *piece),
    {
        let mut buf: Vec<u8> = Vec::new();
        let mut k: usize = 0;
        while k < piece.length
            invariant
                k <= piece.length,
                buf@.len() == k,
                forall|j: int| 0 <= j < k ==> buf@[j] == 0u8,
            decreases piece.length - k,
        {
            buf.push(0);
            k = k + 1;
        }
        self.piece_progress = PieceProgress {
            buf,
            num_downloaded_bytes: 0,
            num_requested_bytes: 0,
            backlog_length: 0,
        };
    }
}

/// The size of the next block to request: a full `MAX_BLOCK_SIZE`, or
/// whatever remains of the piece.
pub open spec fn spec_next_block_size(requested: int, piece_len: int) -> int {
    if piece_len - requested < MAX_BLOCK_SIZE {
        piece_len - requested
    } else {
        MAX_BLOCK_SIZE as int
    }
}

/// Another Request may be sent: the backlog has room and part of the
/// piece is still unrequested.
pub fn needs_request(state: &State, piece: &PieceWork) -> (r: bool)
    ensures
        r == (state.piece_progress.backlog_length < MAX_BACKLOG
            && state.piece_progress.num_requested_bytes < piece.length),
{
    state.piece_progress.backlog_length < MAX_BACKLOG
        && state.piece_progress.num_requested_bytes < piece.length
}

/// The next Request message for the piece in flight: it begins where the
/// requested prefix ends and asks for the next block.
pub fn next_request(state: &State, piece: &PieceWork) -> (m: Message)
    requires
        spec_piece_work_wf(*piece),
        state.piece_progress.num_requested_bytes < piece.length,
    ensures
        m@ == MessageView::Request(
            piece.index as u32,
            state.piece_progress.num_requested_bytes as u32,
            spec_next_block_size(
                state.piece_progress.num_requested_bytes as int,
                piece.length as int,
            ) as u32,
        ),
{
    let remaining = piece.length - state.piece_progress.num_requested_bytes;
    let block_size = if remaining < MAX_BLOCK_SIZE {
        remaining
    } else {
        MAX_BLOCK_SIZE
    };
    Message::Request(
        piece.index as u32,
        state.piece_progress.num_requested_bytes as u32,
        block_size as u32,
    )
}

/// Accounts for one Request gone out: the backlog grows by one and the
/// requested prefix by the block just asked for, never past the piece.
pub fn record_request_sent(state: &mut State, piece: &PieceWork)
    requires
        spec_piece_work_wf(*piece),
        spec_progress_wf(old(state).piece_progress, *piece),
        old(state).piece_progress.backlog_length < MAX_BACKLOG,
        old(state).piece_progress.num_requested_bytes < piece.length,
    ensures
        final(state).piece_progress.backlog_length == old(state).piece_progress.backlog_length
            + 1,
        final(state).piece_progress.num_requested_bytes == old(state).piece_progress.num_requested_bytes + spec_next_block_size(
            old(state).piece_progress.num_requested_bytes as int,
            piece.length as int,
        ),
        final(state).piece_progress.buf == old(state).piece_progress.buf,
        final(state).piece_progress.num_downloaded_bytes == old(state).piece_progress.num_downloaded_bytes,
        final(state).bitfield == old(state).bitfield,
        final(state).peer_choking == old(state).peer_choking,
        spec_progress_wf(final(state).piece_progress, *piece),
{
    let remaining = piece.length - state.piece_progress.num_requested_bytes;
    let block_size = if remaining < MAX_BLOCK_SIZE {
        remaining
    } else {
        MAX_BLOCK_SIZE
    };
    state.piece_progress.backlog_length = state.piece_progress.backlog_length + 1;
    state.piece_progress.num_requested_bytes = state.piece_progress.num_requested_bytes
        + block_size;
}

/// Which error, if any, the validation of a Piece message reports, in the
/// order the checks run.
pub open spec fn spec_validate_piece_message(
    piece: PieceWork,
    buf_len: nat,
    received_piece_index: u32,
    received_block_index: u32,
    payload: Seq<u8>,
) -> Result<(), WorkerError> {
    if payload.len() < 8 {
        Err(WorkerError::PayloadTooShort)
    } else if received_piece_index as int != piece.index as int {
        Err(WorkerError::WrongPiece)
    } else if received_block_index > buf_len {
        Err(WorkerError::OffsetTooHigh)
    } else if received_block_index + payload.len() > buf_len {
        Err(WorkerError::DataTooLong)
    } else {
        Ok(())
    }
}

/// Checks a Piece message against the piece in flight and the buffer it
/// must land in.
pub fn validate_piece_message(
    piece_work: &PieceWork,
    state: &State,
    received_piece_index: u32,
    received_block_index: u32,
    payload: &Vec<u8>,
) -> (r: Result<(), WorkerError>)
    requires
        spec_piece_work_wf(*piece_work),
    ensures
        r == spec_validate_piece_message(
            *piece_work,
            state.piece_progress.buf@.len(),
            received_piece_index,
            received_block_index,
            payload@,
        ),
{
    if payload.len() < 8 {
        return Err(WorkerError::PayloadTooShort);
    }
    if received_piece_index != piece_work.index as u32 {
        return Err(WorkerError::WrongPiece);
    }
    if received_block_index as usize > state.piece_progress.buf.len() {
        return Err(WorkerError::OffsetTooHigh);
    }
    if payload.len() > state.piece_progress.buf.len() - received_block_index as usize {
        return Err(WorkerError::DataTooLong);
    }
    Ok(())
}

/// How a valid Piece message changes the connection state: the block is
/// written into the buffer at its offset, the downloaded count grows by
/// the block, the backlog shrinks by one, and nothing else moves.
pub open spec fn spec_block_applied(pre: State, post: State, begin: int, block: Seq<u8>) -> bool {
    &&& post.piece_progress.buf@.len() == pre.piece_progress.buf@.len()
    &&& (forall|k: int|
        begin <= k < begin + block.len() ==> post.piece_progress.buf@[k] == block[k - begin])
    &&& (forall|k: int|
        0 <= k < pre.piece_progress.buf@.len() && !(begin <= k < begin + block.len())
            ==> post.piece_progress.buf@[k] == pre.piece_progress.buf@[k])
    &&& post.piece_progress.num_downloaded_bytes == pre.piece_progress.num_downloaded_bytes
        + block.len()
    &&& post.piece_progress.backlog_length == pre.piece_progress.backlog_length - 1
    &&& post.piece_progress.num_requested_bytes == pre.piece_progress.num_requested_bytes
    &&& post.bitfield == pre.bitfield
    &&& post.peer_choking == pre.peer_choking
}

/// Only the choke flag changed, to `choking`.
pub open spec fn spec_choke_set(pre: State, post: State, choking: bool) -> bool {
    &&& post.peer_choking == choking
    &&& post.piece_progress == pre.piece_progress
    &&& post.bitfield == pre.bitfield
}

/// What one inbound message does to the connection, as the download loop
/// sees it.
pub fn apply_message(state: &mut State, message: Message, piece: &PieceWork) -> (r: Result<
    (),
    WorkerError,
>)
    requires
        spec_piece_work_wf(*piece),
        spec_progress_wf(old(state).piece_progress, *piece),
        message@ matches MessageView::Piece(idx, begin, block)
            ==> old(state).piece_progress.num_downloaded_bytes + block.len() <= usize::MAX
            && old(state).piece_progress.backlog_length >= 1,
    ensures
        spec_progress_wf(final(state).piece_progress, *piece),
        match message@ {
            MessageView::Piece(idx, begin, block) => {
                match spec_validate_piece_message(
                    *piece,
                    old(state).piece_progress.buf@.len(),
                    idx,
                    begin,
                    block,
                ) {
                    Ok(()) => r is Ok && spec_block_applied(
                        *old(state),
                        *final(state),
                        begin as int,
                        block,
                    ),
                    Err(e) => r == Err::<(), WorkerError>(e) && *final(state) == *old(state),
                }
            },
            MessageView::Choke => r is Ok && spec_choke_set(*old(state), *final(state), true),
            MessageView::Unchoke => r is Ok && spec_choke_set(*old(state), *final(state), false),
            MessageView::KeepAlive => r is Ok && *final(state) == *old(state),
            _ => r == Err::<(), WorkerError>(WorkerError::UnexpectedMessage) && *final(state)
                == *old(state),
        },
{
    match message {
        Message::Piece(received_piece_index, received_block_index, payload) => {
            if let Err(e) = validate_piece_message(
                piece,
                state,
                received_piece_index,
                received_block_index,
                &payload,
            ) {
                return Err(e);
            }
            let begin = received_block_index as usize;
            let mut j: usize = 0;
            while j < payload.len()
                invariant
                    begin + payload@.len() <= state.piece_progress.buf@.len(),
                    state.piece_progress.buf@.len() <= usize::MAX,
                    j <= payload@.len(),
                    state.piece_progress.buf@.len() == old(state).piece_progress.buf@.len(),
                    forall|k: int|
                        begin <= k < begin + j ==> state.piece_progress.buf@[k] == payload@[k
                            - begin],
                    forall|k: int|
                        0 <= k < state.piece_progress.buf@.len() && !(begin <= k < begin + j)
                            ==> state.piece_progress.buf@[k] == old(state).piece_progress.buf@[k],
                    state.piece_progress.num_downloaded_bytes == old(state).piece_progress.num_downloaded_bytes,
                    state.piece_progress.num_requested_bytes == old(state).piece_progress.num_requested_bytes,
                    state.piece_progress.backlog_length == old(state).piece_progress.backlog_length,
                    state.bitfield == old(state).bitfield,
                    state.peer_choking == old(state).peer_choking,
                decreases payload@.len() - j,
            {
                state.piece_progress.buf[begin + j] = payload[j];
                j = j + 1;
            }
            state.piece_progress.num_downloaded_bytes = state.piece_progress.num_downloaded_bytes
                + payload.len();
            state.piece_progress.backlog_length = state.piece_progress.backlog_length - 1;
            Ok(())
        },
        Message::Choke => {
            state.peer_choking = true;
            Ok(())
        },
        Message::Unchoke => {
            state.peer_choking = false;
            Ok(())
        },
        Message::KeepAlive => Ok(()),
        _ => Err(WorkerError::UnexpectedMessage),
    }
}

/// The piece is fully downloaded: every byte of the buffer has arrived.
pub fn piece_complete(state: &State, piece: &PieceWork) -> (r: bool)
    ensures
        r == (state.piece_progress.num_downloaded_bytes >= piece.length),
{
    state.piece_progress.num_downloaded_bytes >= piece.length
}

/// The buffer hashes to the piece's expected digest.
pub fn check_integrity(piece_work: &PieceWork, state: &State) -> (r: bool)
    ensures
        r == (sha1_of(state.piece_progress.buf@) == piece_work.hash@),
{
    let digest = sha1_digest(&state.piece_progress.buf);
    bytes_eq(&digest, &piece_work.hash)
}

/// Releases the completed piece: the result it returns always carries a
/// buffer whose SHA-1 equals the piece hash, and an integrity failure
/// releases nothing.
pub fn finish_piece(piece_work: &PieceWork, state: &State) -> (r: Result<
    PieceResult,
    WorkerError,
>)
    ensures
        r is Ok <==> sha1_of(state.piece_progress.buf@) == piece_work.hash@,
        match r {
            Ok(res) => {
                &&& res.index == piece_work.index
                &&& res.buf@ == state.piece_progress.buf@
                &&& sha1_of(res.buf@) == piece_work.hash@
            },
            Err(e) => e == WorkerError::IntegrityError,
        },
{
    if !check_integrity(piece_work, state) {
        return Err(WorkerError::IntegrityError);
    }
    Ok(PieceResult { index: piece_work.index, buf: copy_bytes(&state.piece_progress.buf) })
}

/// The Have message announcing the completed piece to the peer.
pub fn have_message(piece_work: &PieceWork) -> (m: Message)
    requires
        spec_piece_work_wf(*piece_work),
    ensures
        m@ == MessageView::Have(piece_work.index as u32),
{
    Message::Have(piece_work.index as u32)
}

} // verus!
