use memequeue::error::QueueError;
use memequeue::handshake::named_file::named_file;
use memequeue::handshake::named_file::LockAttempt;
use memequeue::handshake::named_file::NamedFileHandshakeResult;
use memequeue::handshake::named_file::NamedFileNext;
use memequeue::handshake::recover_queue_size;
use memequeue::handshake::recv_fd;
use memequeue::handshake::recv_fd_expecting;
use memequeue::handshake::round_up;
use memequeue::handshake::same_bytes;
use memequeue::handshake::shared_len;
use memequeue::handshake::tag;
use memequeue::handshake::uds_memfd::negotiation_message;
use memequeue::handshake::uds_memfd::uds_memfd;
use memequeue::handshake::uds_memfd::BindOutcome;
use memequeue::handshake::uds_memfd::Negotiation;
use memequeue::handshake::uds_memfd::UdsMemfdHandshakeResult;
use memequeue::handshake::uds_memfd::UdsMemfdNext;
use memequeue::handshake::Ancillary;
use memequeue::handshake::Exchange;
use memequeue::handshake::ExchangeFd;
use memequeue::handshake::HandshakeResult;
use memequeue::handshake::ReadySignal;

#[test]
fn queue_size_is_rounded_up_to_pages() {
    assert_eq!(round_up(0, 4096), Some(0));
    assert_eq!(round_up(1, 4096), Some(4096));
    assert_eq!(round_up(4096, 4096), Some(4096));
    assert_eq!(round_up(4097, 4096), Some(8192));
    assert_eq!(round_up(10, 3), Some(12));
    assert_eq!(round_up(usize::MAX, 4096), None);
    assert_eq!(shared_len(4096, 4096), Some(8192));
    assert_eq!(shared_len(3 * 4096, 4096), Some(4 * 4096));
}

#[test]
fn peer_recovers_the_queue_size_from_the_file() {
    assert_eq!(recover_queue_size(8192, 4096), Ok(4096));
    assert_eq!(recover_queue_size(5 * 4096, 4096), Ok(4 * 4096));
    assert_eq!(recover_queue_size(4096, 4096), Err(QueueError::HandshakeMalformed));
    assert_eq!(recover_queue_size(0, 4096), Err(QueueError::HandshakeMalformed));
    assert_eq!(recover_queue_size(8193, 4096), Err(QueueError::HandshakeMalformed));
    assert_eq!(recover_queue_size(4097, 4096), Err(QueueError::HandshakeMalformed));
}

#[test]
fn named_file_owner_sizes_the_file() {
    assert_eq!(
        named_file(LockAttempt::Acquired, 5000, 4096),
        Ok(NamedFileNext::Create { file_len: 3 * 4096, queue_size: 8192 })
    );
    assert_eq!(
        named_file(LockAttempt::Acquired, 4096, 4096),
        Ok(NamedFileNext::Create { file_len: 8192, queue_size: 4096 })
    );
    assert_eq!(named_file(LockAttempt::WouldBlock, 5000, 4096), Ok(NamedFileNext::Join));
    assert_eq!(named_file(LockAttempt::Failed(13), 5000, 4096), Err(QueueError::Oserr(13)));
    assert_eq!(
        named_file(LockAttempt::Acquired, usize::MAX - 4095, 4096),
        Err(QueueError::InvalidInput)
    );
}

#[test]
fn named_file_owner_signals_once() {
    let mut owner = NamedFileHandshakeResult::created(7, 8192);
    assert_eq!(owner.shmem_fd(), 7);
    assert!(owner.is_owner());
    assert_eq!(owner.queue_size(), 8192);
    assert_eq!(owner.mark_ready(), ReadySignal::ShareLock);
    assert_eq!(owner.mark_ready(), ReadySignal::Nothing);
    assert!(owner.is_owner());
    assert_eq!(owner.queue_size(), 8192);
}

#[test]
fn named_file_peer_reads_the_size() {
    let mut peer = NamedFileHandshakeResult::joined(9, 3 * 4096, 4096).unwrap();
    assert_eq!(peer.shmem_fd(), 9);
    assert!(!peer.is_owner());
    assert_eq!(peer.queue_size(), 8192);
    assert_eq!(peer.mark_ready(), ReadySignal::Nothing);
    assert_eq!(
        NamedFileHandshakeResult::joined(9, 3 * 4096 + 1, 4096).err(),
        Some(QueueError::HandshakeMalformed)
    );
}

#[test]
fn uds_memfd_binder_owns_the_queue() {
    assert_eq!(
        uds_memfd(BindOutcome::Bound, 100, 4096),
        Ok(UdsMemfdNext::Create { file_len: 8192, queue_size: 4096 })
    );
    assert_eq!(uds_memfd(BindOutcome::AddrInUse, 100, 4096), Ok(UdsMemfdNext::Join));
    assert_eq!(uds_memfd(BindOutcome::Failed(2), 100, 4096), Err(QueueError::Oserr(2)));
}

#[test]
fn negotiation_message_is_fixed() {
    assert_eq!(negotiation_message(), b"memequeue uds memfd negotiation");
}

#[test]
fn descriptors_are_tagged_by_their_number() {
    assert_eq!(tag(1), 1_usize.to_le_bytes().to_vec());
    assert_eq!(tag(0x0102), 0x0102_usize.to_le_bytes().to_vec());
    let mut owner = UdsMemfdHandshakeResult::created(5, 4096);
    assert_eq!(owner.send_fd(20), 1_usize.to_le_bytes().to_vec());
    assert_eq!(owner.send_fd(21), 2_usize.to_le_bytes().to_vec());
    assert_eq!(owner.mark_ready(), ReadySignal::SendDescriptor);
    assert_eq!(owner.mark_ready(), ReadySignal::Nothing);
    assert_eq!(owner.recv_fd(), Exchange::Expect(3_usize.to_le_bytes().to_vec()));
    assert!(owner.is_owner());
    assert_eq!(owner.shmem_fd(), 5);
    assert_eq!(owner.queue_size(), 4096);
}

#[test]
fn peer_sets_early_descriptors_aside() {
    let mut negotiation = Negotiation::new();
    assert_eq!(negotiation.receive(30, &1_usize.to_le_bytes()), Ok(None));
    assert_eq!(negotiation.receive(31, &2_usize.to_le_bytes()), Ok(None));
    assert_eq!(
        negotiation.receive(32, &2_usize.to_le_bytes()),
        Err(QueueError::HandshakeMalformed)
    );
    assert_eq!(negotiation.receive(33, b"hello"), Err(QueueError::HandshakeMalformed));
    assert_eq!(negotiation.receive(34, b"memequeue uds memfd negotiation"), Ok(Some(34)));
    let mut peer = negotiation.joined(34, 8192, 4096).unwrap();
    assert!(!peer.is_owner());
    assert_eq!(peer.shmem_fd(), 34);
    assert_eq!(peer.queue_size(), 4096);
    assert_eq!(peer.mark_ready(), ReadySignal::Nothing);
    assert_eq!(peer.recv_fd(), Exchange::Queued(30));
    assert_eq!(peer.recv_fd(), Exchange::Queued(31));
    assert_eq!(peer.recv_fd(), Exchange::Expect(3_usize.to_le_bytes().to_vec()));
    assert_eq!(peer.send_fd(40), 4_usize.to_le_bytes().to_vec());
}

#[test]
fn peer_rejects_a_file_of_a_wrong_size() {
    let negotiation = Negotiation::new();
    assert_eq!(negotiation.joined(34, 4096 + 100, 4096).err(), Some(QueueError::HandshakeMalformed));
}

#[test]
fn expected_payload_lets_the_descriptor_through() {
    assert_eq!(recv_fd_expecting(8, b"abc", b"abc"), Ok(8));
    assert_eq!(recv_fd_expecting(8, b"abc", b"abd"), Err(QueueError::HandshakeMalformed));
    assert_eq!(recv_fd_expecting(8, b"abc", b"ab"), Err(QueueError::HandshakeMalformed));
    assert!(same_bytes(b"", b""));
    assert!(!same_bytes(b"a", b""));
}

#[test]
fn first_descriptor_of_the_ancillary_data_is_taken() {
    assert_eq!(recv_fd(&[]), Err(QueueError::HandshakeMalformed));
    assert_eq!(recv_fd(&[Ancillary::Other]), Err(QueueError::HandshakeMalformed));
    assert_eq!(
        recv_fd(&[Ancillary::Rights(vec![])]),
        Err(QueueError::HandshakeMalformed)
    );
    assert_eq!(
        recv_fd(&[Ancillary::Other, Ancillary::Rights(vec![]), Ancillary::Rights(vec![6, 7])]),
        Ok(6)
    );
    assert_eq!(
        recv_fd(&[Ancillary::Rights(vec![4]), Ancillary::Rights(vec![6, 7])]),
        Ok(4)
    );
}
