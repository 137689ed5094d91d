use sha1::{Digest, Sha1};
use std::collections::HashMap;
use torrent_engine::infohash::{encode_info_dict, url_encode};
use torrent_engine::torrent_file::{split_hashes, TorrentFile};

fn sha1_of(data: &[u8]) -> Vec<u8> {
    <Sha1 as Digest>::digest(data).to_vec()
}

/// Three pieces of 10, 10 and 5 bytes.
fn sample_torrent() -> TorrentFile {
    let pieces: Vec<u8> = (0u8..60).collect();
    TorrentFile::from_bencode(
        "http://tracker.example/announce".to_string(),
        b"sample.bin".to_vec(),
        10,
        25,
        pieces,
    )
    .expect("consistent metainfo must be accepted")
}

#[test]
fn piece_bounds_partition_the_file() {
    let t = sample_torrent();
    assert_eq!(t.calculate_bound_for_piece(0), (0, 10));
    assert_eq!(t.calculate_bound_for_piece(1), (10, 20));
    assert_eq!(t.calculate_bound_for_piece(2), (20, 25));
    let total: usize = (0..3).map(|i| t.calculate_piece_size(i)).sum();
    assert_eq!(total, 25);
    assert_eq!(t.calculate_piece_size(0), 10);
    assert_eq!(t.calculate_piece_size(1), 10);
    assert_eq!(t.calculate_piece_size(2), 5);
}

#[test]
fn exact_multiple_has_full_final_piece() {
    let pieces: Vec<u8> = (0u8..40).collect();
    let t = TorrentFile::from_bencode(
        "http://tracker.example/announce".to_string(),
        b"even.bin".to_vec(),
        10,
        20,
        pieces,
    )
    .expect("consistent metainfo must be accepted");
    assert_eq!(t.piece_hashes.len(), 2);
    assert_eq!(t.calculate_piece_size(1), 10);
}

#[test]
fn split_hashes_cuts_twenty_byte_digests() {
    let pieces: Vec<u8> = (0u8..40).collect();
    let hs = split_hashes(&pieces).expect("40 bytes are two hashes");
    assert_eq!(hs.len(), 2);
    assert_eq!(hs[0], (0u8..20).collect::<Vec<u8>>());
    assert_eq!(hs[1], (20u8..40).collect::<Vec<u8>>());
    assert!(split_hashes(&vec![0u8; 21]).is_none());
}

#[test]
fn malformed_metainfo_is_rejected() {
    let announce = "http://tracker.example/announce".to_string();
    // Hash bytes not a multiple of 20.
    assert!(
        TorrentFile::from_bencode(announce.clone(), b"x".to_vec(), 10, 25, vec![0u8; 61]).is_none()
    );
    // Piece length zero.
    assert!(
        TorrentFile::from_bencode(announce.clone(), b"x".to_vec(), 0, 25, vec![0u8; 60]).is_none()
    );
    // Hash count inconsistent with the piece count.
    assert!(
        TorrentFile::from_bencode(announce.clone(), b"x".to_vec(), 10, 25, vec![0u8; 40]).is_none()
    );
}

#[test]
fn info_dict_matches_general_bencoding() {
    let name = b"sample.bin".to_vec();
    let pieces: Vec<u8> = (0u8..60).collect();
    let ours = encode_info_dict(&name, 10, 25, &pieces);

    let mut dict: HashMap<Vec<u8>, serde_bencode::value::Value> = HashMap::new();
    dict.insert(
        b"name".to_vec(),
        serde_bencode::value::Value::Bytes(name.clone()),
    );
    dict.insert(
        b"pieces".to_vec(),
        serde_bencode::value::Value::Bytes(pieces.clone()),
    );
    dict.insert(
        b"piece length".to_vec(),
        serde_bencode::value::Value::Int(10),
    );
    dict.insert(b"length".to_vec(), serde_bencode::value::Value::Int(25));
    let theirs = serde_bencode::ser::to_bytes(&serde_bencode::value::Value::Dict(dict))
        .expect("bencoding a plain dict cannot fail");

    assert_eq!(ours, theirs);
}

#[test]
fn infohash_is_sha1_of_info_dict() {
    let t = sample_torrent();
    let name = b"sample.bin".to_vec();
    let pieces: Vec<u8> = (0u8..60).collect();
    let expected = sha1_of(&encode_info_dict(&name, 10, 25, &pieces));
    assert_eq!(t.infohash, expected);
    assert_eq!(t.infohash.len(), 20);
    assert_eq!(t.infohash_encoded, url_encode(&t.infohash));
}

#[test]
fn url_encode_escapes_exactly_the_disallowed_bytes() {
    let out = url_encode(&vec![0x12, 0xAB, b'.', b'a', b'Z', b'0', 0x00, b' ', b'~']);
    assert_eq!(out, b"%12%ab.aZ0%00%20~".to_vec());
}

#[test]
fn url_encode_empty_is_empty() {
    assert!(url_encode(&Vec::new()).is_empty());
}
