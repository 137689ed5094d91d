use torrent_engine::bitfield::bitfield_has_piece;
use torrent_engine::controller::{
    bandwidth_kilobytes_per_sec, build_work_queue, pop_work, requeue_work, write_piece,
    PieceResult,
};
use torrent_engine::torrent_file::TorrentFile;

/// Three pieces of 10, 10 and 5 bytes.
fn sample_torrent() -> TorrentFile {
    let pieces: Vec<u8> = (0u8..60).collect();
    TorrentFile::from_bencode(
        "http://tracker.example/announce".to_string(),
        b"sample.bin".to_vec(),
        10,
        25,
        pieces,
    )
    .expect("consistent metainfo must be accepted")
}

#[test]
fn queue_is_seeded_in_index_order() {
    let t = sample_torrent();
    let mut q = build_work_queue(&t);
    assert_eq!(q.len(), 3);
    for expected in 0..3usize {
        let w = pop_work(&mut q).expect("seeded queue holds an item per piece");
        assert_eq!(w.index, expected);
        assert_eq!(w.hash, t.piece_hashes[expected]);
        assert_eq!(w.length, t.calculate_piece_size(expected));
    }
    assert!(pop_work(&mut q).is_none());
}

#[test]
fn requeue_moves_the_item_to_the_tail() {
    let t = sample_torrent();
    let mut q = build_work_queue(&t);
    let first = pop_work(&mut q).expect("non-empty");
    assert_eq!(first.index, 0);
    requeue_work(&mut q, first);
    let order: Vec<usize> = (0..3)
        .map(|_| pop_work(&mut q).expect("three items remain").index)
        .collect();
    assert_eq!(order, vec![1, 2, 0]);
}

#[test]
fn peer_miss_requeues_and_other_pieces_flow() {
    // Scenario: a three-piece file against a peer whose bitfield has only
    // bit 1 set. Pieces 0 and 2 bounce to the tail; piece 1 is served.
    let t = sample_torrent();
    let mut q = build_work_queue(&t);
    let peer_bits = vec![0x40u8];

    let mut served = Vec::new();
    let mut bounced = Vec::new();
    for _ in 0..3 {
        let w = pop_work(&mut q).expect("three items seeded");
        if bitfield_has_piece(&peer_bits, w.index) {
            served.push(w.index);
        } else {
            bounced.push(w.index);
            requeue_work(&mut q, w);
        }
    }
    assert_eq!(served, vec![1]);
    assert_eq!(bounced, vec![0, 2]);
    // The missed pieces are still available, in bounce order.
    assert_eq!(pop_work(&mut q).expect("piece 0 kept").index, 0);
    assert_eq!(pop_work(&mut q).expect("piece 2 kept").index, 2);
    assert!(pop_work(&mut q).is_none());
}

#[test]
fn write_piece_touches_only_its_range() {
    let t = sample_torrent();
    let mut artifact = vec![0xEEu8; 25];
    let payload: Vec<u8> = (100u8..110).collect();
    let result = PieceResult {
        index: 1,
        buf: payload.clone(),
    };
    write_piece(&mut artifact, &t, &result);
    assert_eq!(&artifact[0..10], &[0xEE; 10]);
    assert_eq!(&artifact[10..20], payload.as_slice());
    assert_eq!(&artifact[20..25], &[0xEE; 5]);
}

#[test]
fn assembling_every_piece_fills_the_artifact() {
    let t = sample_torrent();
    let mut artifact = vec![0u8; 25];
    // Results arrive out of order; reassembly goes by index.
    for index in [2usize, 0, 1] {
        let (start, end) = t.calculate_bound_for_piece(index);
        let buf: Vec<u8> = (start..end).map(|b| b as u8).collect();
        let result = PieceResult { index, buf };
        write_piece(&mut artifact, &t, &result);
    }
    let expected: Vec<u8> = (0u8..25).collect();
    assert_eq!(artifact, expected);
}

#[test]
fn bandwidth_is_bytes_per_second_in_kilobytes() {
    assert_eq!(bandwidth_kilobytes_per_sec(6_000_000, 3), 2000);
    assert_eq!(bandwidth_kilobytes_per_sec(2999, 3), 0);
    assert_eq!(bandwidth_kilobytes_per_sec(0, 3), 0);
}
