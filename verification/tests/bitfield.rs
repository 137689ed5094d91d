use torrent_engine::bitfield::{bitfield_has_piece, bitfield_set_piece};

#[test]
fn set_then_has() {
    let mut bits = vec![0u8, 0u8];
    for i in 0..16 {
        assert!(!bitfield_has_piece(&bits, i));
    }
    bitfield_set_piece(&mut bits, 3);
    assert!(bitfield_has_piece(&bits, 3));
    for i in 0..16 {
        if i != 3 {
            assert!(!bitfield_has_piece(&bits, i), "bit {} must stay clear", i);
        }
    }
}

#[test]
fn layout_is_msb_first() {
    // Index 0 is the most significant bit of byte 0.
    let mut bits = vec![0u8];
    bitfield_set_piece(&mut bits, 0);
    assert_eq!(bits, vec![0x80]);

    // Index 1 is the next bit down: the peer of scenario S6.
    let mut bits = vec![0u8];
    bitfield_set_piece(&mut bits, 1);
    assert_eq!(bits, vec![0x40]);

    // Index 8 lands in the second byte.
    let mut bits = vec![0u8, 0u8];
    bitfield_set_piece(&mut bits, 8);
    assert_eq!(bits, vec![0x00, 0x80]);
}

#[test]
fn has_reads_given_bytes() {
    let bits = vec![0x40u8];
    assert!(!bitfield_has_piece(&bits, 0));
    assert!(bitfield_has_piece(&bits, 1));
    assert!(!bitfield_has_piece(&bits, 2));
}

#[test]
fn out_of_range_reads_false_and_set_is_ignored() {
    let mut bits = vec![0xFFu8];
    assert!(!bitfield_has_piece(&bits, 8));
    assert!(!bitfield_has_piece(&bits, 1000));
    bitfield_set_piece(&mut bits, 8);
    bitfield_set_piece(&mut bits, 1000);
    assert_eq!(bits, vec![0xFF]);
}

#[test]
fn set_is_idempotent() {
    let mut bits = vec![0u8];
    bitfield_set_piece(&mut bits, 5);
    let once = bits.clone();
    bitfield_set_piece(&mut bits, 5);
    assert_eq!(bits, once);
}
