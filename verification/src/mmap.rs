//! The geometry of the shared region: one header page, then the ring, which
//! every process maps twice at consecutive addresses.
use crate::error::QueueError;
use crate::handshake::round_up;
use crate::handshake::spec_round_up;
use vstd::prelude::*;

verus! {

/// Whether `queue_size` is the size of a ring as it is mapped: a positive
/// number of whole pages, small enough for 32-bit offsets into both mappings.
pub open spec fn spec_whole_pages(queue_size: nat, page_size: nat) -> bool {
    &&& page_size > 0
    &&& queue_size > 0
    &&& queue_size % page_size == 0
    &&& 2 * queue_size <= u32::MAX
}

/// Whether a ring of `queue_size` bytes can be mapped with pages of
/// `page_size` bytes: rounded up to whole pages it is not empty, and 32-bit
/// offsets reach into both of its mappings.
pub open spec fn spec_mappable(queue_size: nat, page_size: nat) -> bool {
    &&& page_size > 0
    &&& spec_round_up(queue_size, page_size) > 0
    &&& 2 * spec_round_up(queue_size, page_size) <= u32::MAX
}

/// The size of the ring that is mapped for a request of `queue_size`
/// bytes: the request rounded up to whole pages. A ring of no bytes and a
/// ring beyond the reach of 32-bit offsets are refused.
pub fn check_queue_size(queue_size: usize, page_size: usize) -> (res: Result<usize, QueueError>)
    requires
        page_size > 0,
    ensures
        res is Ok == spec_mappable(queue_size as nat, page_size as nat),
        res matches Err(error) ==> error == QueueError::InvalidInput,
        res matches Ok(size) ==> {
            &&& size == spec_round_up(queue_size as nat, page_size as nat)
            &&& spec_whole_pages(size as nat, page_size as nat)
        },
{
    match round_up(queue_size, page_size) {
        Some(size) => if size == 0 || size > 0x7fff_ffff {
            Err(QueueError::InvalidInput)
        } else {
            Ok(size)
        },
        None => Err(QueueError::InvalidInput),
    }
}

/// A mapping, by its address and its size.
#[derive(Clone, Copy, Debug, PartialEq, Eq, Structural)]
pub struct Mmap {
    pub ptr: usize,
    pub size: usize,
}

impl Mmap {
    pub open spec fn spec_ptr(&self) -> usize {
        self.ptr
    }

    pub open spec fn spec_size(&self) -> usize {
        self.size
    }

    /// The mapping of `size` bytes at `ptr`.
    pub fn new(ptr: usize, size: usize) -> (mapping: Mmap)
        ensures
            mapping.spec_ptr() == ptr,
            mapping.spec_size() == size,
    {
        Mmap { ptr, size }
    }

    /// The address of the first byte.
    #[verifier::when_used_as_spec(spec_ptr)]
    pub fn as_ptr(&self) -> (ptr: usize)
        ensures
            ptr == self.spec_ptr(),
    {
        self.ptr
    }

    /// The number of bytes.
    #[verifier::when_used_as_spec(spec_size)]
    pub fn size(&self) -> (size: usize)
        ensures
            size == self.spec_size(),
    {
        self.size
    }

    /// What has to be unmapped when this mapping is given up.
    pub fn release(&self) -> (range: Unmap)
        ensures
            range == (Unmap { addr: self.spec_ptr(), len: self.spec_size() }),
    {
        Unmap { addr: self.ptr, len: self.size }
    }
}

/// A range of addresses to unmap.
#[derive(Clone, Copy, Debug, PartialEq, Eq, Structural)]
pub struct Unmap {
    pub addr: usize,
    pub len: usize,
}

/// The three mappings of a queue.
#[derive(Clone, Copy, Debug, PartialEq, Eq, Structural)]
pub struct QueueMmaps {
    /// The header page.
    pub header: Mmap,
    /// The ring.
    pub left: Mmap,
    /// The ring once more, right behind `left`.
    pub right: Mmap,
}

/// A mapping to ask the kernel for. Every one is readable, writable and shared.
#[derive(Clone, Copy, Debug, PartialEq, Eq, Structural)]
pub enum MapRequest {
    /// `len` bytes of anonymous memory, wherever the kernel puts them.
    Reserve { len: usize },
    /// `len` bytes of the file from `file_offset`, at exactly `addr`, in
    /// place of what is mapped there.
    Fixed { addr: usize, len: usize, file_offset: i64 },
    /// `len` bytes of the file from `file_offset`, wherever the kernel puts them.
    Anywhere { len: usize, file_offset: i64 },
}

/// How far the mapping of a queue has come.
#[derive(Clone, Copy, Debug, PartialEq, Eq, Structural)]
pub enum MapStage {
    /// The address range for both mappings of the ring is being reserved.
    Reserving,
    /// The range is reserved at `big`; the ring is being mapped into its first half.
    MappingLeft { big: usize },
    /// The ring is being mapped into the second half.
    MappingRight { big: usize },
    /// Both halves show the ring; the header page is being mapped.
    MappingHeader { big: usize },
}

/// How the mapping of a queue begins.
#[derive(Clone, Copy, Debug, PartialEq, Eq, Structural)]
pub struct MapStart {
    /// The size of the ring: what was asked for, rounded up to whole pages.
    /// Every request is planned with it.
    pub queue_size: usize,
    /// The stage to come back at.
    pub stage: MapStage,
    /// The first request.
    pub request: MapRequest,
}

/// What follows the kernel's answer to a request.
#[derive(Debug, PartialEq, Eq)]
pub enum MapNext {
    /// Ask for `request` and come back at `stage`.
    Request { stage: MapStage, request: MapRequest },
    /// All three mappings are there.
    Done { mmaps: QueueMmaps },
    /// The request failed: unmap `release`, in this order, and report the
    /// error of the failed call.
    Failed { release: Vec<Unmap> },
}

/// The request that a stage waits on.
pub open spec fn spec_request(stage: MapStage, queue_size: usize, page_size: usize) -> MapRequest {
    match stage {
        MapStage::Reserving => MapRequest::Reserve { len: (2 * queue_size) as usize },
        MapStage::MappingLeft { big } => MapRequest::Fixed {
            addr: big,
            len: queue_size,
            file_offset: page_size as i64,
        },
        MapStage::MappingRight { big } => MapRequest::Fixed {
            addr: (big + queue_size) as usize,
            len: queue_size,
            file_offset: page_size as i64,
        },
        MapStage::MappingHeader { big } => MapRequest::Anywhere { len: page_size, file_offset: 0 },
    }
}

/// What is mapped and has to be released if the request of a stage fails:
/// nothing yet, then the whole reserved range, then its two halves.
pub open spec fn spec_release(stage: MapStage, queue_size: usize) -> Seq<Unmap> {
    match stage {
        MapStage::Reserving => Seq::empty(),
        MapStage::MappingLeft { big } => seq![
            Unmap { addr: big, len: (2 * queue_size) as usize },
        ],
        MapStage::MappingRight { big } => seq![
            Unmap { addr: big, len: queue_size },
            Unmap { addr: (big + queue_size) as usize, len: queue_size },
        ],
        MapStage::MappingHeader { big } => seq![
            Unmap { addr: big, len: queue_size },
            Unmap { addr: (big + queue_size) as usize, len: queue_size },
        ],
    }
}

/// The stage that follows a stage whose request was granted at `addr`.
pub open spec fn spec_next_stage(stage: MapStage, addr: usize) -> Option<MapStage> {
    match stage {
        MapStage::Reserving => Some(MapStage::MappingLeft { big: addr }),
        MapStage::MappingLeft { big } => Some(MapStage::MappingRight { big }),
        MapStage::MappingRight { big } => Some(MapStage::MappingHeader { big }),
        MapStage::MappingHeader { big } => None,
    }
}

/// The mappings of a queue whose ring range was reserved at `big` and
/// whose header page came to lie at `header`.
pub open spec fn spec_mmaps(big: usize, header: usize, queue_size: usize, page_size: usize)
    -> QueueMmaps {
    QueueMmaps {
        header: Mmap { ptr: header, size: page_size },
        left: Mmap { ptr: big, size: queue_size },
        right: Mmap { ptr: (big + queue_size) as usize, size: queue_size },
    }
}

/// Whether a stage names a range that can hold both mappings of the ring.
pub open spec fn stage_fits(stage: MapStage, queue_size: usize) -> bool {
    match stage {
        MapStage::Reserving => true,
        MapStage::MappingLeft { big } => big + 2 * queue_size <= usize::MAX,
        MapStage::MappingRight { big } => big + 2 * queue_size <= usize::MAX,
        MapStage::MappingHeader { big } => big + 2 * queue_size <= usize::MAX,
    }
}

fn request_of(stage: MapStage, queue_size: usize, page_size: usize) -> (request: MapRequest)
    requires
        2 * queue_size <= u32::MAX,
        page_size <= i64::MAX,
        stage_fits(stage, queue_size),
    ensures
        request == spec_request(stage, queue_size, page_size),
{
    match stage {
        MapStage::Reserving => MapRequest::Reserve { len: 2 * queue_size },
        MapStage::MappingLeft { big } => MapRequest::Fixed {
            addr: big,
            len: queue_size,
            file_offset: page_size as i64,
        },
        MapStage::MappingRight { big } => MapRequest::Fixed {
            addr: big + queue_size,
            len: queue_size,
            file_offset: page_size as i64,
        },
        MapStage::MappingHeader { big } => MapRequest::Anywhere { len: page_size, file_offset: 0 },
    }
}

impl QueueMmaps {
    /// Begins to map a queue: rounds the ring size up to whole pages and
    /// names the first request.
    pub fn from_fd(queue_size: usize, page_size: usize) -> (res: Result<MapStart, QueueError>)
        requires
            0 < page_size <= i64::MAX,
        ensures
            res is Ok == spec_mappable(queue_size as nat, page_size as nat),
            res matches Err(error) ==> error == QueueError::InvalidInput,
            res matches Ok(start) ==> {
                &&& start.queue_size == spec_round_up(queue_size as nat, page_size as nat)
                &&& spec_whole_pages(start.queue_size as nat, page_size as nat)
                &&& start.stage == MapStage::Reserving
                &&& start.request == spec_request(
                    MapStage::Reserving,
                    start.queue_size,
                    page_size,
                )
            },
    {
        match check_queue_size(queue_size, page_size) {
            Ok(size) => Ok(
                MapStart {
                    queue_size: size,
                    stage: MapStage::Reserving,
                    request: request_of(MapStage::Reserving, size, page_size),
                },
            ),
            Err(error) => Err(error),
        }
    }

    /// Goes on after the kernel answered the request of `stage`: with the
    /// address of the new mapping in `mapped`, or with nothing if the
    /// request failed. `queue_size` is the size that the mapping began with.
    pub fn advance(stage: MapStage, mapped: Option<usize>, queue_size: usize, page_size: usize)
        -> (next: MapNext)
        requires
            spec_whole_pages(queue_size as nat, page_size as nat),
            page_size <= i64::MAX,
            stage_fits(stage, queue_size),
            stage == MapStage::Reserving ==> (mapped matches Some(big) ==> big + 2 * queue_size
                <= usize::MAX),
        ensures
            match mapped {
                None => next matches MapNext::Failed { release } && release@ == spec_release(
                    stage,
                    queue_size,
                ),
                Some(addr) => match spec_next_stage(stage, addr) {
                    Some(following) => next == (MapNext::Request {
                        stage: following,
                        request: spec_request(following, queue_size, page_size),
                    }),
                    None => stage matches MapStage::MappingHeader { big } && next
                        == (MapNext::Done {
                        mmaps: spec_mmaps(big, addr, queue_size, page_size),
                    }),
                },
            },
    {
        match mapped {
            None => {
                let mut release: Vec<Unmap> = Vec::new();
                match stage {
                    MapStage::Reserving => {},
                    MapStage::MappingLeft { big } => {
                        release.push(Unmap { addr: big, len: 2 * queue_size });
                    },
                    MapStage::MappingRight { big } => {
                        release.push(Unmap { addr: big, len: queue_size });
                        release.push(Unmap { addr: big + queue_size, len: queue_size });
                    },
                    MapStage::MappingHeader { big } => {
                        release.push(Mmap::new(big, queue_size).release());
                        release.push(Mmap::new(big + queue_size, queue_size).release());
                    },
                }
                proof {
                    assert(release@ =~= spec_release(stage, queue_size));
                }
                MapNext::Failed { release }
            },
            Some(addr) => {
                match stage {
                    MapStage::Reserving => {
                        let following = MapStage::MappingLeft { big: addr };
                        MapNext::Request {
                            stage: following,
                            request: request_of(following, queue_size, page_size),
                        }
                    },
                    MapStage::MappingLeft { big } => {
                        let following = MapStage::MappingRight { big };
                        MapNext::Request {
                            stage: following,
                            request: request_of(following, queue_size, page_size),
                        }
                    },
                    MapStage::MappingRight { big } => {
                        let following = MapStage::MappingHeader { big };
                        MapNext::Request {
                            stage: following,
                            request: request_of(following, queue_size, page_size),
                        }
                    },
                    MapStage::MappingHeader { big } => MapNext::Done {
                        mmaps: QueueMmaps {
                            header: Mmap::new(addr, page_size),
                            left: Mmap::new(big, queue_size),
                            right: Mmap::new(big + queue_size, queue_size),
                        },
                    },
                }
            },
        }
    }
}

/// The two mappings of the ring lie back to back and are of one size, so
/// that every offset below twice the ring size names an address in one of them.
pub proof fn lemma_mappings_adjoin(big: usize, header: usize, queue_size: usize, page_size: usize)
    requires
        big + 2 * queue_size <= usize::MAX,
    ensures
        ({
            let mmaps = spec_mmaps(big, header, queue_size, page_size);
            &&& mmaps.right.spec_ptr() == mmaps.left.spec_ptr() + mmaps.left.spec_size()
            &&& mmaps.right.spec_size() == mmaps.left.spec_size()
            &&& mmaps.left.spec_size() == queue_size
            &&& mmaps.header.spec_size() == page_size
        }),
{
}

} // verus!
