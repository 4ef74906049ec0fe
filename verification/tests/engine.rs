use memequeue::reservation::admits;
use memequeue::reservation::cache_covers;
use memequeue::reservation::cache_shows;
use memequeue::reservation::capacity;
use memequeue::reservation::commit_point;
use memequeue::reservation::locate;
use memequeue::reservation::reserve;
use memequeue::reservation::rewind;
use memequeue::reservation::Delivery;
use memequeue::reservation::Reservation;
use memequeue::word::decode_word;
use memequeue::word::encode_word;
use memequeue::word::word_size;
use memequeue::word::ByteOrder;

const Q: usize = 4096;
const W: usize = std::mem::size_of::<usize>();

#[test]
fn capacity_leaves_room_for_a_size_word() {
    assert_eq!(capacity(Q) as usize, Q - W);
    assert_eq!(capacity(0), 0);
    assert_eq!(capacity(W - 1), 0);
    assert_eq!(capacity(W), 0);
    assert!(admits(Q, 0, Q - W));
    assert!(!admits(Q, 0, Q - W + 1));
    assert!(admits(Q, W as u32, Q - 2 * W));
    assert!(!admits(Q, W as u32, Q - 2 * W + 1));
    assert!(!admits(Q, u32::MAX, 0));
    assert!(!admits(Q, 0, usize::MAX));
}

#[test]
fn reservation_copies_what_fits() {
    assert_eq!(reserve(Q, 0, 0, 0, 10), Reservation::Copy { at: 0, len: 10 });
    assert_eq!(reserve(Q, 100, 8, 0, 10), Reservation::Copy { at: 108, len: 10 });
    assert_eq!(reserve(Q, 4000, 90, 0, 10), Reservation::Copy { at: 4090, len: 6 });
    assert_eq!(reserve(Q, 4000, 90, 50, 10), Reservation::Copy { at: 4090, len: 10 });
    assert_eq!(reserve(Q, 8000, 100, 4096, 400), Reservation::Copy { at: 8100, len: 92 });
    assert_eq!(reserve(Q, 8000, 100, 5000, 400), Reservation::Copy { at: 8100, len: 92 });
    assert_eq!(reserve(Q, 100, 8, 0, 0), Reservation::Copy { at: 108, len: 0 });
}

#[test]
fn reservation_waits_on_a_full_ring() {
    assert_eq!(reserve(Q, 4000, 96, 0, 10), Reservation::Wait { expected: 0 });
    assert_eq!(reserve(Q, 5000, 96, 1000, 10), Reservation::Wait { expected: 1000 });
    assert_eq!(reserve(Q, 4000, 96, 0, 0), Reservation::Wait { expected: 0 });
}

#[test]
fn reservation_rewinds_at_the_end_of_the_second_mapping() {
    assert_eq!(reserve(Q, 8192, 0, 4096, 10), Reservation::Rewind);
    assert_eq!(reserve(Q, 8000, 192, 8000, 10), Reservation::Rewind);
    assert_eq!(reserve(Q, 8192, 0, 8192, 0), Reservation::Rewind);
    assert_eq!(rewind(Q, 4096, 8192), (0, 4096));
    assert_eq!(rewind(Q, 8000, 8000), (3904, 3904));
}

#[test]
fn producer_trusts_its_cache_only_for_room() {
    assert!(!cache_covers(Q, None, 0, 0, 10));
    assert!(cache_covers(Q, Some(0), 0, 0, 10));
    assert!(cache_covers(Q, Some(0), 4000, 0, 95));
    assert!(!cache_covers(Q, Some(0), 4000, 0, 96));
    assert!(cache_covers(Q, Some(1), 4000, 0, 96));
    assert!(!cache_covers(Q, Some(0), 4000, 90, 6));
    assert!(!cache_covers(Q, Some(u32::MAX), u32::MAX, u32::MAX, usize::MAX));
}

#[test]
fn reader_trusts_its_cache_only_for_a_message() {
    assert!(!cache_shows(None, 0));
    assert!(!cache_shows(Some(0), 0));
    assert!(cache_shows(Some(1), 0));
    assert!(!cache_shows(Some(10), 11));
}

#[test]
fn message_is_placed_behind_its_size_word() {
    assert_eq!(
        locate(Q, 100, 50),
        Some(Delivery { payload_at: 100 + W, next_left: (150 + W) as u32 })
    );
    assert_eq!(
        locate(Q, 0, 0),
        Some(Delivery { payload_at: W, next_left: W as u32 })
    );
    assert_eq!(
        locate(Q, 8000, 192 - W),
        Some(Delivery { payload_at: 8000 + W, next_left: 8192 })
    );
    assert_eq!(locate(Q, 8000, 193 - W), None);
    assert_eq!(locate(Q, 0, usize::MAX), None);
}

#[test]
fn commit_stores_the_payload_length() {
    assert_eq!(commit_point(100, (W + 3) as u32), (3, (103 + W) as u32));
    assert_eq!(commit_point(0, W as u32), (0, W as u32));
}

#[test]
fn size_word_reads_back_in_either_order() {
    assert_eq!(word_size(), W);
    for value in [0usize, 1, 255, 256, 0x0102_0304, usize::MAX] {
        for order in [ByteOrder::Little, ByteOrder::Big] {
            let word = encode_word(value, order);
            assert_eq!(word.len(), W);
            assert_eq!(decode_word(&word, order), value);
        }
        assert_eq!(encode_word(value, ByteOrder::Little), value.to_le_bytes().to_vec());
        assert_eq!(encode_word(value, ByteOrder::Big), value.to_be_bytes().to_vec());
        assert_eq!(encode_word(value, ByteOrder::native()), value.to_ne_bytes().to_vec());
        assert_eq!(decode_word(&value.to_ne_bytes(), ByteOrder::native()), value);
    }
}

#[test]
fn byte_order_follows_what_one_and_zero_spell() {
    assert_eq!(ByteOrder::read_as(1), ByteOrder::Little);
    assert_eq!(ByteOrder::read_as(256), ByteOrder::Big);
    assert_eq!(ByteOrder::read_as(u16::from_le_bytes([1, 0])), ByteOrder::Little);
    assert_eq!(ByteOrder::read_as(u16::from_be_bytes([1, 0])), ByteOrder::Big);
    assert_eq!(ByteOrder::native(), ByteOrder::read_as(u16::from_ne_bytes([1, 0])));
}
