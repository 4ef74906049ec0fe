use memequeue::control::eventfd::EventFdControl;
use memequeue::control::eventfd::EventFdControlConfig;
use memequeue::control::shmem_futex::ShmemFutexControl;
use memequeue::control::shmem_futex::ShmemFutexControlConfig;
use memequeue::control::Side;
use memequeue::error::Park;
use memequeue::error::QueueError;
use memequeue::handshake::named_file::NamedFileHandshakeResult;
use memequeue::queue::MemeQueue;

type Queue = MemeQueue<NamedFileHandshakeResult, ShmemFutexControl>;

const PAGE: usize = 4096;
const PREFIX: usize = std::mem::size_of::<usize>();

fn queue(size: usize) -> Queue {
    MemeQueue::new(NamedFileHandshakeResult::created(3, size), PAGE).unwrap()
}

fn recv(queue: &mut Queue) -> Result<Vec<u8>, QueueError> {
    queue.recv(|bytes| bytes.to_vec())
}

fn pattern(len: usize, seed: usize) -> Vec<u8> {
    (0..len).map(|i| (i * 31 + seed * 7 + 1) as u8).collect()
}

#[test]
fn new_queue_is_empty() {
    let mut queue = queue(4096);
    assert!(queue.is_empty());
    assert_eq!(queue.queue_size(), 4096);
    assert_eq!(queue.offset(Side::Left), 0);
    assert_eq!(queue.offset(Side::Right), 0);
    assert_eq!(
        recv(&mut queue),
        Err(QueueError::WouldBlock(Park::Offset { side: Side::Right, expected: 0 }))
    );
}

#[test]
fn new_rounds_the_ring_up_to_whole_pages() {
    let made: Result<Queue, QueueError> =
        MemeQueue::new(NamedFileHandshakeResult::created(3, 4097), PAGE);
    let mut queue = made.unwrap();
    assert_eq!(queue.queue_size(), 8192);
    assert_eq!(queue.send(&pattern(8192 - 2 * PREFIX, 1)), Ok(()));
    assert_eq!(recv(&mut queue), Ok(pattern(8192 - 2 * PREFIX, 1)));
    let small: Result<Queue, QueueError> =
        MemeQueue::new(NamedFileHandshakeResult::created(3, 1), PAGE);
    assert_eq!(small.unwrap().queue_size(), 4096);
}

#[test]
fn new_refuses_an_empty_or_a_huge_ring() {
    let none: Result<Queue, QueueError> =
        MemeQueue::new(NamedFileHandshakeResult::created(3, 0), PAGE);
    assert_eq!(none.err(), Some(QueueError::InvalidInput));
    let huge: Result<Queue, QueueError> =
        MemeQueue::new(NamedFileHandshakeResult::created(3, 0x8000_0000), PAGE);
    assert_eq!(huge.err(), Some(QueueError::InvalidInput));
}

#[test]
fn send_abc_then_recv() {
    let mut queue = queue(4096);
    assert_eq!(queue.send(b"abc"), Ok(()));
    assert_eq!(queue.offset(Side::Right) as usize, 3 + PREFIX);
    assert_eq!(queue.offset(Side::Left), 0);
    assert_eq!(recv(&mut queue), Ok(b"abc".to_vec()));
    assert_eq!(queue.offset(Side::Left) as usize, 3 + PREFIX);
    assert_eq!(queue.offset(Side::Right) as usize, 3 + PREFIX);
    assert!(queue.is_empty());
}

#[test]
fn three_messages_back_to_back() {
    let mut queue = queue(4096);
    let first = pattern(100, 1);
    let second = pattern(200, 2);
    let third = pattern(300, 3);
    assert_eq!(queue.send(&first), Ok(()));
    assert_eq!(queue.send(&second), Ok(()));
    assert_eq!(queue.send(&third), Ok(()));
    assert_eq!(queue.offset(Side::Right) as usize, 100 + 200 + 300 + 3 * PREFIX);
    if PREFIX == 8 {
        assert_eq!(queue.offset(Side::Right), 624);
    }
    assert_eq!(recv(&mut queue), Ok(first));
    assert_eq!(recv(&mut queue), Ok(second));
    assert_eq!(recv(&mut queue), Ok(third));
    assert_eq!(queue.offset(Side::Left), queue.offset(Side::Right));
    if PREFIX == 8 {
        assert_eq!(queue.offset(Side::Left), 624);
    }
}

#[test]
fn messages_survive_rewinds() {
    let mut queue = queue(4096);
    let mut rewinds = 0;
    let mut sent = 0;
    let mut received = 0;
    while received < 150 {
        let before = queue.offset(Side::Right);
        match queue.send(&pattern(1000, sent)) {
            Ok(()) => {
                if queue.offset(Side::Right) < before {
                    rewinds += 1;
                }
                sent += 1;
            }
            Err(QueueError::WouldBlock(Park::Offset { side: Side::Left, .. })) => {
                if queue.offset(Side::Right) < before {
                    rewinds += 1;
                }
                assert_eq!(recv(&mut queue), Ok(pattern(1000, received)));
                received += 1;
            }
            Err(other) => panic!("unexpected error {other:?}"),
        }
        let left = queue.offset(Side::Left) as usize;
        let right = queue.offset(Side::Right) as usize;
        assert!(left <= right);
        assert!(right - left <= 4096);
        assert!(right <= 2 * 4096);
    }
    assert!(rewinds > 0);
    while received < sent {
        assert_eq!(recv(&mut queue), Ok(pattern(1000, received)));
        received += 1;
    }
    assert!(queue.is_empty());
}

#[test]
fn zero_length_round_trip() {
    let mut queue = queue(4096);
    assert_eq!(queue.send(b""), Ok(()));
    assert_eq!(queue.offset(Side::Right) as usize, PREFIX);
    assert!(!queue.is_empty());
    assert_eq!(recv(&mut queue), Ok(Vec::new()));
    assert_eq!(queue.offset(Side::Left) as usize, PREFIX);
    assert!(queue.is_empty());
}

#[test]
fn message_across_the_end_of_the_first_mapping() {
    let mut queue = queue(4096);
    let filler = pattern(4096 - 250 - 2 * PREFIX, 5);
    assert_eq!(queue.send(&filler), Ok(()));
    assert_eq!(recv(&mut queue), Ok(filler));
    assert_eq!(queue.offset(Side::Left) as usize, 4096 - 250 - PREFIX);
    let straddling = pattern(500, 9);
    assert_eq!(queue.send(&straddling), Ok(()));
    assert_eq!(queue.offset(Side::Right) as usize, 4096 + 250);
    let seen = queue.recv(|bytes| {
        assert_eq!(bytes.len(), 500);
        bytes.to_vec()
    });
    assert_eq!(seen, Ok(straddling));
    assert_eq!(queue.offset(Side::Left) as usize, 4096 + 250);
}

#[test]
fn greatest_message() {
    let mut queue = queue(4096);
    let greatest = pattern(4096 - 2 * PREFIX, 11);
    assert_eq!(queue.send(&greatest), Ok(()));
    assert_eq!(queue.offset(Side::Right) as usize, 4096 - PREFIX);
    assert_eq!(recv(&mut queue), Ok(greatest));
}

#[test]
fn oversize_message_is_refused() {
    let mut queue = queue(4096);
    assert_eq!(queue.send(b"abc"), Ok(()));
    let left = queue.offset(Side::Left);
    let right = queue.offset(Side::Right);
    let too_long = pattern(4096 - 2 * PREFIX + 1, 13);
    assert_eq!(queue.send(&too_long), Err(QueueError::SizeTooLarge));
    assert_eq!(queue.send(&pattern(4096 - PREFIX, 13)), Err(QueueError::SizeTooLarge));
    assert_eq!(queue.send(&pattern(3 * 4096, 13)), Err(QueueError::SizeTooLarge));
    assert_eq!(queue.offset(Side::Left), left);
    assert_eq!(queue.offset(Side::Right), right);
    assert_eq!(recv(&mut queue), Ok(b"abc".to_vec()));
    assert!(queue.is_empty());
}

#[test]
fn full_queue_parks_the_producer_until_the_consumer_drains() {
    let mut queue = queue(4096);
    let mut sent = 0;
    let park = loop {
        match queue.send(&pattern(900, sent)) {
            Ok(()) => sent += 1,
            Err(QueueError::WouldBlock(park)) => break park,
            Err(other) => panic!("unexpected error {other:?}"),
        }
    };
    assert_eq!(sent, 4096 / (900 + PREFIX));
    assert_eq!(park, Park::Offset { side: Side::Left, expected: 0 });
    assert_eq!(queue.stats().left_wait_yields_to_os, 0);
    assert_eq!(queue.wait(park), Ok(()));
    assert_eq!(queue.stats().left_wait_yields_to_os, 1);
    assert_eq!(queue.send(&pattern(900, sent)), Err(QueueError::WouldBlock(park)));
    assert_eq!(recv(&mut queue), Ok(pattern(900, 0)));
    assert_eq!(queue.send(&pattern(900, sent)), Ok(()));
    sent += 1;
    for index in 1..sent {
        assert_eq!(recv(&mut queue), Ok(pattern(900, index)));
    }
    assert!(queue.is_empty());
}

#[test]
fn backpressure_delivers_everything_in_order() {
    let mut queue = queue(4096);
    let mut sent = 0;
    let mut received = 0;
    while sent < 10_000 {
        match queue.send(&pattern(900, sent)) {
            Ok(()) => sent += 1,
            Err(QueueError::WouldBlock(park)) => {
                assert_eq!(queue.wait(park), Ok(()));
                assert_eq!(recv(&mut queue), Ok(pattern(900, received)));
                received += 1;
            }
            Err(other) => panic!("unexpected error {other:?}"),
        }
    }
    while received < sent {
        assert_eq!(recv(&mut queue), Ok(pattern(900, received)));
        received += 1;
    }
    assert_eq!(received, 10_000);
    assert!(queue.stats().left_wait_yields_to_os > 0);
    assert_eq!(queue.stats().right_wait_yields_to_os, 0);
}

#[test]
fn sends_then_receives_yield_the_sequence() {
    let mut queue = queue(8192);
    let batch: Vec<Vec<u8>> = (0..40).map(|index| pattern(index * 5, index)).collect();
    for message in &batch {
        assert_eq!(queue.send(message), Ok(()));
    }
    let mut back = Vec::new();
    for _ in &batch {
        back.push(recv(&mut queue).unwrap());
    }
    assert_eq!(back, batch);
}

#[test]
fn writer_takes_a_message_in_pieces() {
    let mut queue = queue(4096);
    let mut writer = queue.writer().unwrap();
    assert_eq!(writer.total_written() as usize, PREFIX);
    assert_eq!(writer.write(&mut queue, b"hello, "), Ok(7));
    assert_eq!(writer.write_all(&mut queue, b"world"), Ok(()));
    assert_eq!(writer.flush(), Ok(()));
    assert_eq!(writer.total_written() as usize, PREFIX + 12);
    assert_eq!(writer.right_offset(), 0);
    assert!(queue.is_empty());
    assert_eq!(
        queue.send(b"other").err(),
        Some(QueueError::WouldBlock(Park::Lock { side: Side::Right }))
    );
    assert_eq!(queue.commit(writer), Ok(()));
    assert_eq!(recv(&mut queue), Ok(b"hello, world".to_vec()));
}

#[test]
fn aborted_message_is_never_seen() {
    let mut queue = queue(4096);
    let mut writer = queue.writer().unwrap();
    assert_eq!(writer.write_all(&mut queue, b"half a mess"), Ok(()));
    queue.abort(writer);
    assert!(queue.is_empty());
    assert_eq!(queue.offset(Side::Right), 0);
    assert_eq!(queue.send(b"whole"), Ok(()));
    assert_eq!(recv(&mut queue), Ok(b"whole".to_vec()));
}

#[test]
fn consumer_may_read_while_a_message_is_written() {
    let mut queue = queue(4096);
    assert_eq!(queue.send(b"first"), Ok(()));
    let mut writer = queue.writer().unwrap();
    assert_eq!(writer.write_all(&mut queue, b"sec"), Ok(()));
    assert_eq!(recv(&mut queue), Ok(b"first".to_vec()));
    assert_eq!(
        recv(&mut queue),
        Err(QueueError::WouldBlock(Park::Offset {
            side: Side::Right,
            expected: (5 + PREFIX) as u32
        }))
    );
    assert_eq!(writer.write_all(&mut queue, b"ond"), Ok(()));
    assert_eq!(queue.commit(writer), Ok(()));
    assert_eq!(recv(&mut queue), Ok(b"second".to_vec()));
}

#[test]
fn wait_spins_before_it_parks() {
    let handshake = NamedFileHandshakeResult::created(3, 4096);
    let config = ShmemFutexControlConfig { spin_on_wait: 3 };
    let mut queue: Queue = MemeQueue::with_config(handshake, config, PAGE).unwrap();
    assert_eq!(queue.wait(Park::Offset { side: Side::Right, expected: 7 }), Ok(()));
    assert_eq!(queue.stats().right_wait_yields_to_os, 0);
    assert_eq!(queue.wait(Park::Offset { side: Side::Right, expected: 0 }), Ok(()));
    assert_eq!(queue.stats().right_wait_yields_to_os, 1);
    assert_eq!(queue.wait(Park::Lock { side: Side::Right }), Ok(()));
    assert_eq!(queue.stats().right_wait_yields_to_os, 1);
    assert_eq!(queue.stats().left_wait_yields_to_os, 0);
}

#[test]
fn reads_and_writes_in_any_order() {
    let mut queue = queue(4096);
    let mut to_read = std::collections::VecDeque::new();
    let mut state: u64 = 0x243f_6a88_85a3_08d3;
    for index in 0..20_000 {
        state = state.wrapping_mul(6364136223846793005).wrapping_add(1442695040888963407);
        let draw = (state >> 33) as usize % 41;
        if draw == 40 || to_read.len() > 200 {
            let Some(expected) = to_read.pop_front() else { continue };
            assert_eq!(recv(&mut queue), Ok(expected));
        } else {
            let message = pattern(draw, index);
            match queue.send(&message) {
                Ok(()) => to_read.push_back(message),
                Err(QueueError::WouldBlock(Park::Offset { side: Side::Left, .. })) => {
                    let Some(expected) = to_read.pop_front() else { panic!("full and empty") };
                    assert_eq!(recv(&mut queue), Ok(expected));
                }
                Err(other) => panic!("unexpected error {other:?}"),
            }
        }
    }
    while let Some(expected) = to_read.pop_front() {
        assert_eq!(recv(&mut queue), Ok(expected));
    }
    assert!(queue.is_empty());
}

#[test]
fn errors_describe_themselves() {
    assert_eq!(QueueError::SizeTooLarge.message(), "tried to write too much");
    assert_eq!(
        QueueError::InvalidInput.message(),
        "queue size must be positive and within reach of 32-bit offsets"
    );
    assert_eq!(QueueError::HandshakeMalformed.message(), "malformed handshake");
    assert_eq!(QueueError::Oserr(2).message(), "system call failed");
    assert_eq!(QueueError::Deadlock.message(), "wait on event descriptor timed out");
    assert_eq!(
        QueueError::WouldBlock(Park::Lock { side: Side::Left }).message(),
        "operation would block"
    );
}

#[test]
fn producer_parks_on_the_left_offset_after_a_rewind() {
    let mut queue = queue(4096);
    // Move both offsets into the second mapping.
    for index in 0..5 {
        assert_eq!(queue.send(&pattern(1000, index)), Ok(()));
        assert_eq!(recv(&mut queue), Ok(pattern(1000, index)));
    }
    let at = 5 * (1000 + PREFIX);
    assert_eq!(queue.offset(Side::Left) as usize, at);
    assert_eq!(queue.offset(Side::Right) as usize, at);
    // A message that waits, and one that neither fits before the end of the
    // second mapping nor into the room that is left: the producer writes up
    // to the end, rewinds, fills the room and parks.
    assert_eq!(queue.send(&pattern(2000, 9)), Ok(()));
    assert_eq!(queue.offset(Side::Right) as usize, at + 2000 + PREFIX);
    assert_eq!(
        queue.send(&pattern(3000, 10)),
        Err(QueueError::WouldBlock(Park::Offset {
            side: Side::Left,
            expected: (at - 4096) as u32
        }))
    );
    assert_eq!(queue.offset(Side::Left) as usize, at - 4096);
    assert_eq!(queue.offset(Side::Right) as usize, at + 2000 + PREFIX - 4096);
    assert_eq!(recv(&mut queue), Ok(pattern(2000, 9)));
    assert_eq!(queue.send(&pattern(3000, 10)), Ok(()));
    assert_eq!(recv(&mut queue), Ok(pattern(3000, 10)));
}

#[test]
fn new_sets_the_control_plane_up_with_its_defaults() {
    // With no spinning, a wait goes to the kernel even if the offset has changed.
    let mut queue = queue(4096);
    assert_eq!(queue.wait(Park::Offset { side: Side::Right, expected: 7 }), Ok(()));
    assert_eq!(queue.stats().right_wait_yields_to_os, 1);
    let spinning = ShmemFutexControlConfig { spin_on_wait: 1 };
    let mut other: Queue =
        MemeQueue::with_config(NamedFileHandshakeResult::created(3, 4096), spinning, PAGE)
            .unwrap();
    assert_eq!(other.wait(Park::Offset { side: Side::Right, expected: 7 }), Ok(()));
    assert_eq!(other.stats().right_wait_yields_to_os, 0);
}

#[test]
fn queue_runs_on_the_event_control_plane() {
    let config = EventFdControlConfig { left_event: 10, right_event: 11 };
    let mut queue: MemeQueue<NamedFileHandshakeResult, EventFdControl> =
        MemeQueue::with_config(NamedFileHandshakeResult::created(3, 4096), config, PAGE).unwrap();
    assert_eq!(queue.send(b"abc"), Ok(()));
    assert_eq!(queue.send(b""), Ok(()));
    assert_eq!(queue.recv(|bytes| bytes.to_vec()), Ok(b"abc".to_vec()));
    assert_eq!(queue.recv(|bytes| bytes.to_vec()), Ok(Vec::new()));
    let park = Park::Offset { side: Side::Right, expected: (3 + 2 * PREFIX) as u32 };
    assert_eq!(queue.recv(|bytes| bytes.to_vec()), Err(QueueError::WouldBlock(park)));
    // Nobody will ever write to the descriptor: the wait times out.
    assert_eq!(queue.wait(park), Err(QueueError::Deadlock));
    assert_eq!(queue.stats().right_wait_yields_to_os, 1);
    assert_eq!(queue.offset(Side::Left) as usize, 3 + 2 * PREFIX);
    // The consumer that gave up is still counted, so the next message wakes it.
    assert_eq!(queue.send(b"late"), Ok(()));
    assert_eq!(queue.stats().right_notify_yields_to_os, 1);
    assert_eq!(queue.wait(Park::Offset { side: Side::Right, expected: 0 }), Ok(()));
    assert_eq!(queue.recv(|bytes| bytes.to_vec()), Ok(b"late".to_vec()));
    let defaults: MemeQueue<NamedFileHandshakeResult, EventFdControl> =
        MemeQueue::new(NamedFileHandshakeResult::created(3, 4096), PAGE).unwrap();
    assert!(defaults.is_empty());
}
