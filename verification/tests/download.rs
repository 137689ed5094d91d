use sha1::{Digest, Sha1};
use torrent_engine::controller::PieceWork;
use torrent_engine::message::Message;
use torrent_engine::peer::init_connection;
use torrent_engine::worker::{
    apply_message, check_integrity, finish_piece, have_message, needs_request, next_request,
    piece_complete, record_request_sent, validate_piece_message, State, WorkerError, MAX_BACKLOG,
};

fn sha1_of(data: &[u8]) -> Vec<u8> {
    <Sha1 as Digest>::digest(data).to_vec()
}

fn fresh_state(bitfield: Vec<u8>) -> State {
    init_connection(Message::Bitfield(bitfield)).expect("a bitfield starts the connection")
}

fn request_fields(m: &Message) -> (u32, u32, u32) {
    match m {
        Message::Request(a, b, c) => (*a, *b, *c),
        other => panic!("expected a Request, got {:?}", other),
    }
}

#[test]
fn single_piece_download() {
    // Scenario: a one-piece file of 10 bytes, piece hash SHA-1("helloworld").
    let payload = b"helloworld".to_vec();
    let work = PieceWork {
        index: 0,
        hash: sha1_of(&payload),
        length: 10,
    };
    let mut state = fresh_state(vec![0x80]);
    assert!(state.peer_choking);
    state.begin_piece(&work);

    assert!(needs_request(&state, &work));
    let req = next_request(&state, &work);
    assert_eq!(request_fields(&req), (0, 0, 10));
    record_request_sent(&mut state, &work);
    assert!(!needs_request(&state, &work));

    let msg = Message::Piece(0, 0, payload.clone());
    apply_message(&mut state, msg, &work).expect("a valid block is accepted");
    assert!(piece_complete(&state, &work));
    assert!(check_integrity(&work, &state));

    let result = finish_piece(&work, &state).expect("the hash matches");
    assert_eq!(result.index, 0);
    assert_eq!(result.buf, payload);

    match have_message(&work) {
        Message::Have(ix) => assert_eq!(ix, 0),
        other => panic!("expected Have, got {:?}", other),
    }
}

#[test]
fn multi_block_piece_out_of_order() {
    // Scenario: one piece of 40000 bytes arrives as three blocks in
    // arbitrary order; the backlog never exceeds its bound.
    let mut payload = Vec::new();
    for i in 0..40000u32 {
        payload.push((i % 251) as u8);
    }
    let work = PieceWork {
        index: 0,
        hash: sha1_of(&payload),
        length: 40000,
    };
    let mut state = fresh_state(vec![0x80]);
    state.begin_piece(&work);

    let mut requests = Vec::new();
    while needs_request(&state, &work) {
        let req = next_request(&state, &work);
        requests.push(request_fields(&req));
        record_request_sent(&mut state, &work);
        assert!(state.piece_progress.backlog_length <= MAX_BACKLOG);
    }
    assert_eq!(
        requests,
        vec![(0, 0, 16384), (0, 16384, 16384), (0, 32768, 7232)]
    );

    // Deliver the blocks back in a different order than requested.
    for &(_, begin, len) in &[requests[2], requests[0], requests[1]] {
        let block = payload[begin as usize..(begin + len) as usize].to_vec();
        apply_message(&mut state, Message::Piece(0, begin, block), &work)
            .expect("valid blocks are accepted");
    }
    assert!(piece_complete(&state, &work));
    assert_eq!(state.piece_progress.backlog_length, 0);
    let result = finish_piece(&work, &state).expect("the hash matches");
    assert_eq!(result.buf, payload);
}

#[test]
fn corrupted_piece_fails_integrity() {
    // Scenario: a correctly sized but corrupted piece is refused.
    let good = b"helloworld".to_vec();
    let work = PieceWork {
        index: 0,
        hash: sha1_of(&good),
        length: 10,
    };
    let mut state = fresh_state(vec![0x80]);
    state.begin_piece(&work);
    record_request_sent(&mut state, &work);
    apply_message(&mut state, Message::Piece(0, 0, b"helloWORLD".to_vec()), &work)
        .expect("the block itself is well-formed");
    assert!(piece_complete(&state, &work));
    assert!(!check_integrity(&work, &state));
    assert!(matches!(
        finish_piece(&work, &state),
        Err(WorkerError::IntegrityError)
    ));
}

#[test]
fn validation_rejects_each_malformed_piece_message() {
    let work = PieceWork {
        index: 2,
        hash: vec![0u8; 20],
        length: 100,
    };
    let mut state = fresh_state(vec![0xFF]);
    state.begin_piece(&work);

    // Fewer than 8 block bytes.
    assert_eq!(
        validate_piece_message(&work, &state, 2, 0, &vec![1u8; 7]),
        Err(WorkerError::PayloadTooShort)
    );
    // Another piece's index.
    assert_eq!(
        validate_piece_message(&work, &state, 3, 0, &vec![1u8; 8]),
        Err(WorkerError::WrongPiece)
    );
    // Offset past the end of the buffer.
    assert_eq!(
        validate_piece_message(&work, &state, 2, 101, &vec![1u8; 8]),
        Err(WorkerError::OffsetTooHigh)
    );
    // Block running past the end of the buffer.
    assert_eq!(
        validate_piece_message(&work, &state, 2, 95, &vec![1u8; 8]),
        Err(WorkerError::DataTooLong)
    );
    // A well-placed block passes.
    assert_eq!(validate_piece_message(&work, &state, 2, 92, &vec![1u8; 8]), Ok(()));
}

#[test]
fn choke_and_unchoke_toggle_the_flag() {
    let work = PieceWork {
        index: 0,
        hash: vec![0u8; 20],
        length: 10,
    };
    let mut state = fresh_state(vec![0x80]);
    state.begin_piece(&work);
    assert!(state.peer_choking);
    apply_message(&mut state, Message::Unchoke, &work).expect("unchoke is accepted");
    assert!(!state.peer_choking);
    apply_message(&mut state, Message::Choke, &work).expect("choke is accepted");
    assert!(state.peer_choking);
    apply_message(&mut state, Message::KeepAlive, &work).expect("keep-alive is a no-op");
    assert!(state.peer_choking);
}

#[test]
fn unexpected_message_is_an_error() {
    let work = PieceWork {
        index: 0,
        hash: vec![0u8; 20],
        length: 10,
    };
    let mut state = fresh_state(vec![0x80]);
    state.begin_piece(&work);
    assert_eq!(
        apply_message(&mut state, Message::Have(0), &work),
        Err(WorkerError::UnexpectedMessage)
    );
    assert_eq!(
        apply_message(&mut state, Message::Bitfield(vec![1]), &work),
        Err(WorkerError::UnexpectedMessage)
    );
}

#[test]
fn bootstrap_requires_a_bitfield_first() {
    // The first framed message of a connection must be the bitfield.
    let st = init_connection(Message::Bitfield(vec![0x40])).expect("bitfield accepted");
    assert_eq!(st.bitfield, vec![0x40]);
    assert!(st.peer_choking);
    assert!(matches!(
        init_connection(Message::Unchoke),
        Err(WorkerError::ExpectedBitfield)
    ));
    assert!(matches!(
        init_connection(Message::KeepAlive),
        Err(WorkerError::ExpectedBitfield)
    ));
}
