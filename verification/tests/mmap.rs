use memequeue::error::QueueError;
use memequeue::mmap::check_queue_size;
use memequeue::mmap::MapNext;
use memequeue::mmap::MapRequest;
use memequeue::mmap::MapStage;
use memequeue::mmap::Mmap;
use memequeue::mmap::QueueMmaps;
use memequeue::mmap::Unmap;
use memequeue::ring::Ring;

const P: usize = 4096;
const Q: usize = 8192;

#[test]
fn queue_size_is_rounded_up_to_whole_pages() {
    assert_eq!(check_queue_size(Q, P), Ok(Q));
    assert_eq!(check_queue_size(P, P), Ok(P));
    assert_eq!(check_queue_size(Q + 1, P), Ok(Q + P));
    assert_eq!(check_queue_size(4097, P), Ok(8192));
    assert_eq!(check_queue_size(1, P), Ok(P));
    assert_eq!(check_queue_size(0, P), Err(QueueError::InvalidInput));
    assert_eq!(check_queue_size(0x7fff_f000, P), Ok(0x7fff_f000));
    assert_eq!(check_queue_size(0x7fff_f001, P), Err(QueueError::InvalidInput));
    assert_eq!(check_queue_size(0x8000_0000, P), Err(QueueError::InvalidInput));
    assert_eq!(check_queue_size(usize::MAX, P), Err(QueueError::InvalidInput));
}

#[test]
fn mapping_goes_through_four_requests() {
    let start = QueueMmaps::from_fd(Q, P).unwrap();
    assert_eq!(start.queue_size, Q);
    assert_eq!(start.stage, MapStage::Reserving);
    assert_eq!(start.request, MapRequest::Reserve { len: 2 * Q });
    let stage = start.stage;
    let big = 0x7000_0000;
    assert_eq!(
        QueueMmaps::advance(stage, Some(big), Q, P),
        MapNext::Request {
            stage: MapStage::MappingLeft { big },
            request: MapRequest::Fixed { addr: big, len: Q, file_offset: 4096 },
        }
    );
    assert_eq!(
        QueueMmaps::advance(MapStage::MappingLeft { big }, Some(big), Q, P),
        MapNext::Request {
            stage: MapStage::MappingRight { big },
            request: MapRequest::Fixed { addr: big + Q, len: Q, file_offset: 4096 },
        }
    );
    assert_eq!(
        QueueMmaps::advance(MapStage::MappingRight { big }, Some(big + Q), Q, P),
        MapNext::Request {
            stage: MapStage::MappingHeader { big },
            request: MapRequest::Anywhere { len: P, file_offset: 0 },
        }
    );
    let header = 0x6000_0000;
    let done = QueueMmaps::advance(MapStage::MappingHeader { big }, Some(header), Q, P);
    let MapNext::Done { mmaps } = done else { panic!("not done") };
    assert_eq!(mmaps.header, Mmap::new(header, P));
    assert_eq!(mmaps.left, Mmap::new(big, Q));
    assert_eq!(mmaps.right, Mmap::new(big + Q, Q));
    assert_eq!(mmaps.right.as_ptr(), mmaps.left.as_ptr() + mmaps.left.size());
    assert_eq!(mmaps.left.release(), Unmap { addr: big, len: Q });
}

#[test]
fn mapping_rounds_the_ring_up_to_whole_pages() {
    let start = QueueMmaps::from_fd(4097, P).unwrap();
    assert_eq!(start.queue_size, 8192);
    assert_eq!(start.request, MapRequest::Reserve { len: 2 * 8192 });
    let big = 0x7000_0000;
    let mut stage = start.stage;
    let mut answers = vec![big, big, big + 8192].into_iter();
    let mut requests = vec![];
    while let MapNext::Request { stage: following, request } =
        QueueMmaps::advance(stage, answers.next(), start.queue_size, P)
    {
        requests.push(request);
        stage = following;
        if requests.len() == 3 {
            break;
        }
    }
    assert_eq!(
        requests,
        vec![
            MapRequest::Fixed { addr: big, len: 8192, file_offset: 4096 },
            MapRequest::Fixed { addr: big + 8192, len: 8192, file_offset: 4096 },
            MapRequest::Anywhere { len: P, file_offset: 0 },
        ]
    );
    let done = QueueMmaps::advance(stage, Some(0x6000_0000), start.queue_size, P);
    let MapNext::Done { mmaps } = done else { panic!("not done") };
    assert_eq!(mmaps.left.size(), 8192);
    assert_eq!(mmaps.right.size(), 8192);
    assert_eq!(mmaps.right.as_ptr(), mmaps.left.as_ptr() + 8192);
}

#[test]
fn mapping_refuses_an_empty_or_a_huge_ring() {
    assert_eq!(QueueMmaps::from_fd(0, P).err(), Some(QueueError::InvalidInput));
    assert_eq!(QueueMmaps::from_fd(0x8000_0000, P).err(), Some(QueueError::InvalidInput));
    assert_eq!(QueueMmaps::from_fd(0x7fff_f001, P).err(), Some(QueueError::InvalidInput));
}

#[test]
fn failed_request_releases_what_is_mapped() {
    let big = 0x7000_0000;
    assert_eq!(
        QueueMmaps::advance(MapStage::Reserving, None, Q, P),
        MapNext::Failed { release: vec![] }
    );
    assert_eq!(
        QueueMmaps::advance(MapStage::MappingLeft { big }, None, Q, P),
        MapNext::Failed { release: vec![Unmap { addr: big, len: 2 * Q }] }
    );
    let halves = vec![Unmap { addr: big, len: Q }, Unmap { addr: big + Q, len: Q }];
    assert_eq!(
        QueueMmaps::advance(MapStage::MappingRight { big }, None, Q, P),
        MapNext::Failed { release: halves.clone() }
    );
    assert_eq!(
        QueueMmaps::advance(MapStage::MappingHeader { big }, None, Q, P),
        MapNext::Failed { release: halves }
    );
}

#[test]
fn ring_shows_every_byte_twice() {
    let mut ring = Ring::new(16);
    assert_eq!(ring.size(), 16);
    assert_eq!(ring.read(0, 32), vec![0; 32]);
    ring.write(14, &[1, 2, 3, 4]);
    assert_eq!(ring.read(14, 4), vec![1, 2, 3, 4]);
    assert_eq!(ring.read(0, 2), vec![3, 4]);
    assert_eq!(ring.read(16, 2), vec![3, 4]);
    assert_eq!(ring.read(30, 2), vec![1, 2]);
    ring.write(16, &[9]);
    assert_eq!(ring.read(0, 1), vec![9]);
    let all: Vec<u8> = (1..=16).collect();
    ring.write(5, &all);
    assert_eq!(ring.read(5, 16), all);
    assert_eq!(ring.read(21, 11), all[..11].to_vec());
    assert_eq!(ring.read(0, 5), all[11..].to_vec());
}
