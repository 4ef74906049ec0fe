use memequeue::control::eventfd::after_read;
use memequeue::control::eventfd::event_written;
use memequeue::control::eventfd::notify_step;
use memequeue::control::eventfd::poll_step;
use memequeue::control::eventfd::wait_step;
use memequeue::control::eventfd::EVENT_MAX;
use memequeue::control::eventfd::NO_EVENT;
use memequeue::control::shmem_futex::WAKE_ONE;
use memequeue::handshake::named_file::NamedFileHandshakeResult;
use memequeue::control::eventfd::poll_timeout;
use memequeue::control::eventfd::setup_step;
use memequeue::control::eventfd::EventFdControl;
use memequeue::control::eventfd::EventFdControlConfig;
use memequeue::control::eventfd::EventWait;
use memequeue::control::eventfd::SetupStep;
use memequeue::control::eventfd::DEADLOCK_SENTINEL;
use memequeue::control::eventfd::WAKE;
use memequeue::control::shmem_futex::cached;
use memequeue::control::shmem_futex::joined;
use memequeue::control::shmem_futex::left;
use memequeue::control::shmem_futex::must_wake;
use memequeue::control::shmem_futex::release_wakes;
use memequeue::control::shmem_futex::took_by_exchange;
use memequeue::control::shmem_futex::took_by_swap;
use memequeue::control::shmem_futex::wait_after;
use memequeue::control::shmem_futex::wait_first;
use memequeue::control::shmem_futex::Half;
use memequeue::control::shmem_futex::Header;
use memequeue::control::shmem_futex::ShmemFutexControl;
use memequeue::control::shmem_futex::ShmemFutexControlConfig;
use memequeue::control::shmem_futex::WaitStep;
use memequeue::control::shmem_futex::LOCK_CONTENDED;
use memequeue::control::shmem_futex::LOCK_FREE;
use memequeue::control::shmem_futex::LOCK_HELD;
use memequeue::control::shmem_futex::UNKNOWN_OFFSET;
use memequeue::control::Control;
use memequeue::control::Side;
use memequeue::error::Park;
use memequeue::error::QueueError;
use memequeue::shmem_mutex::RawStep;
use memequeue::shmem_mutex::ShmemRawMutex;
use memequeue::shmem_mutex::WAKE_ALL;
use memequeue::stats::Stats;

fn live_header() -> Header {
    Header {
        left: Half { offset: 40, lock: 0, cached_other_offset: 64 },
        right: Half { offset: 72, lock: 0, cached_other_offset: 16 },
        left_waiters: 2,
        right_waiters: 0,
    }
}

fn party(is_owner: bool) -> NamedFileHandshakeResult {
    if is_owner {
        NamedFileHandshakeResult::created(3, 4096)
    } else {
        NamedFileHandshakeResult::joined(3, 8192, 4096).unwrap()
    }
}

fn control(is_owner: bool) -> ShmemFutexControl {
    let config = ShmemFutexControlConfig { spin_on_wait: 2 };
    ShmemFutexControl::new(config, live_header(), &mut party(is_owner)).ok().unwrap()
}

fn event_control() -> EventFdControl {
    let config = EventFdControlConfig { left_event: 10, right_event: 11 };
    EventFdControl::new(config, live_header(), &mut party(false)).ok().unwrap()
}

#[test]
fn side_other_swaps_the_sides() {
    assert_eq!(Side::Left.other(), Side::Right);
    assert_eq!(Side::Right.other(), Side::Left);
    assert_eq!(Side::Left.other().other(), Side::Left);
}

#[test]
fn owner_clears_the_header_and_peer_keeps_it() {
    let owner = control(true);
    assert_eq!(owner.half(Side::Left), Half { offset: 0, lock: 0, cached_other_offset: u32::MAX });
    assert_eq!(owner.half(Side::Right), Half { offset: 0, lock: 0, cached_other_offset: u32::MAX });
    assert_eq!(owner.waiters(Side::Left), 0);
    assert_eq!(owner.cached_offset(Side::Left), None);
    assert_eq!(owner.cached_offset(Side::Right), None);

    let peer = control(false);
    assert_eq!(peer.load_offset(Side::Left), 40);
    assert_eq!(peer.load_offset(Side::Right), 72);
    assert_eq!(peer.waiters(Side::Left), 2);
    assert_eq!(peer.cached_offset(Side::Left), None);
    assert_eq!(peer.cached_offset(Side::Right), None);
    assert_eq!(*peer.stats(), Stats::new());
    assert_eq!(peer.config().spin_on_wait, 2);
    assert_eq!(ShmemFutexControlConfig::default().spin_on_wait, 0);
}

#[test]
fn sync_load_fills_the_other_sides_cache() {
    let mut control = control(false);
    assert_eq!(control.sync_load_offset(Side::Right), 72);
    assert_eq!(control.cached_offset(Side::Right), Some(72));
    assert_eq!(control.half(Side::Left).cached_other_offset, 72);
    assert_eq!(control.cached_offset(Side::Left), None);
    assert_eq!(control.sync_load_offset(Side::Left), 40);
    assert_eq!(control.cached_offset(Side::Left), Some(40));
    assert_eq!(control.half(Side::Right).cached_other_offset, 40);
}

#[test]
fn commit_and_fix_offsets() {
    let mut control = control(false);
    control.commit_offset(Side::Right, 100);
    assert_eq!(control.load_offset(Side::Right), 100);
    assert_eq!(control.load_offset(Side::Left), 40);
    control.fix_offsets(5, 9);
    assert_eq!(control.half(Side::Left), Half { offset: 5, lock: 0, cached_other_offset: 9 });
    assert_eq!(control.half(Side::Right), Half { offset: 9, lock: 0, cached_other_offset: 5 });
    assert_eq!(control.waiters(Side::Left), 2);
}

#[test]
fn cache_word_with_the_sentinel_holds_nothing() {
    assert_eq!(cached(UNKNOWN_OFFSET), None);
    assert_eq!(cached(0), Some(0));
    assert_eq!(cached(u32::MAX - 1), Some(u32::MAX - 1));
    assert_eq!(UNKNOWN_OFFSET, u32::MAX);
}

#[test]
fn lock_is_taken_once() {
    let mut control = control(false);
    let guard = control.lock(Side::Left).ok().unwrap();
    assert_eq!(guard.side(), Side::Left);
    assert_eq!(control.half(Side::Left).lock, LOCK_HELD);
    assert_eq!(
        control.lock(Side::Left).err(),
        Some(QueueError::WouldBlock(Park::Lock { side: Side::Left }))
    );
    assert_eq!(control.half(Side::Left).lock, LOCK_CONTENDED);
    assert_eq!(control.half(Side::Right).lock, LOCK_FREE);
    let other = control.lock(Side::Right).ok().unwrap();
    control.unlock(guard);
    assert_eq!(control.half(Side::Left).lock, LOCK_FREE);
    assert_eq!(control.half(Side::Right).lock, LOCK_HELD);
    control.unlock(other);
    assert!(control.lock(Side::Left).is_ok());
}

#[test]
fn lock_words_decide_the_steps_of_the_mutex() {
    assert!(took_by_exchange(Ok(0)));
    assert!(!took_by_exchange(Err(1)));
    assert!(!took_by_exchange(Err(2)));
    assert!(took_by_swap(LOCK_FREE));
    assert!(!took_by_swap(LOCK_HELD));
    assert!(!took_by_swap(LOCK_CONTENDED));
    assert!(release_wakes(LOCK_CONTENDED));
    assert!(!release_wakes(LOCK_HELD));
    assert!(!release_wakes(LOCK_FREE));
}

#[test]
fn wait_spins_then_parks() {
    assert_eq!(wait_first(0), WaitStep::Park);
    assert_eq!(wait_first(3), WaitStep::Observe { spins_left: 3 });
    assert_eq!(wait_after(3, 7, 7), WaitStep::Observe { spins_left: 2 });
    assert_eq!(wait_after(2, 7, 7), WaitStep::Observe { spins_left: 1 });
    assert_eq!(wait_after(1, 7, 7), WaitStep::Park);
    assert_eq!(wait_after(3, 8, 7), WaitStep::Done);
    assert_eq!(wait_after(1, 8, 7), WaitStep::Done);
}

#[test]
fn wait_counts_only_when_it_parks() {
    let mut control = control(false);
    assert_eq!(control.wait(Side::Left, 41), Ok(()));
    assert_eq!(control.stats().left_wait_yields_to_os, 0);
    assert_eq!(control.wait(Side::Left, 40), Ok(()));
    assert_eq!(control.stats().left_wait_yields_to_os, 1);
    assert_eq!(control.wait(Side::Right, 72), Ok(()));
    assert_eq!(control.stats().right_wait_yields_to_os, 1);
    assert_eq!(control.waiters(Side::Left), 2);
    assert_eq!(control.waiters(Side::Right), 0);
    assert_eq!(control.load_offset(Side::Left), 40);
}

#[test]
fn notify_wakes_only_waiters() {
    let mut control = control(false);
    assert!(must_wake(1));
    assert!(!must_wake(0));
    assert_eq!(control.notify(Side::Left), Ok(()));
    assert_eq!(control.stats().left_notify_yields_to_os, 1);
    assert_eq!(control.notify(Side::Right), Ok(()));
    assert_eq!(control.stats().right_notify_yields_to_os, 0);
    assert_eq!(control.stats().left_wait_yields_to_os, 0);
}

#[test]
fn waiter_count_wraps() {
    assert_eq!(joined(0), 1);
    assert_eq!(joined(u32::MAX), 0);
    assert_eq!(left(1), 0);
    assert_eq!(left(0), u32::MAX);
    assert_eq!(left(joined(u32::MAX)), u32::MAX);
}

#[test]
fn stats_count_and_wrap() {
    let mut stats = Stats::default();
    assert_eq!(stats, Stats::new());
    stats.record_wait(Side::Left);
    stats.record_notify(Side::Right);
    stats.record_notify(Side::Right);
    assert_eq!(stats.left_wait_yields_to_os, 1);
    assert_eq!(stats.right_wait_yields_to_os, 0);
    assert_eq!(stats.left_notify_yields_to_os, 0);
    assert_eq!(stats.right_notify_yields_to_os, 2);
    stats.right_wait_yields_to_os = usize::MAX;
    stats.record_wait(Side::Right);
    assert_eq!(stats.right_wait_yields_to_os, 0);
}

#[test]
fn event_setup_is_create_create_send_send_for_the_owner() {
    assert_eq!(setup_step(true, 0), Some(SetupStep::Create { side: Side::Left }));
    assert_eq!(setup_step(true, 1), Some(SetupStep::Create { side: Side::Right }));
    assert_eq!(setup_step(true, 2), Some(SetupStep::Send { side: Side::Left }));
    assert_eq!(setup_step(true, 3), Some(SetupStep::Send { side: Side::Right }));
    assert_eq!(setup_step(true, 4), None);
    assert_eq!(setup_step(false, 0), Some(SetupStep::Receive { side: Side::Left }));
    assert_eq!(setup_step(false, 1), Some(SetupStep::Receive { side: Side::Right }));
    assert_eq!(setup_step(false, 2), None);
}

#[test]
fn event_wait_polls_only_an_unchanged_offset() {
    assert_eq!(wait_step(10, Side::Left, 41, 40), EventWait::Leave);
    assert_eq!(
        wait_step(10, Side::Left, 40, 40),
        EventWait::Poll { fd: 10, timeout_ms: 5000 }
    );
    assert_eq!(
        wait_step(11, Side::Right, 72, 72),
        EventWait::Poll { fd: 11, timeout_ms: 6000 }
    );
    assert_eq!(poll_timeout(Side::Left), 5000);
    assert_eq!(poll_timeout(Side::Right), 6000);
}

#[test]
fn event_wait_gives_up_after_a_timeout() {
    assert_eq!(poll_step(10, 11, 0), EventWait::GiveUp { fd: 11, value: 0xDEAD });
    assert_eq!(poll_step(11, 10, -1), EventWait::GiveUp { fd: 10, value: 0xDEAD });
    assert_eq!(poll_step(10, 11, 1), EventWait::Read { fd: 10 });
    assert_eq!(poll_step(11, 10, 1), EventWait::Read { fd: 11 });
    assert_eq!(DEADLOCK_SENTINEL, 0xDEAD);
    assert_eq!(after_read(Ok(1)), Ok(()));
    assert_eq!(after_read(Ok(3)), Ok(()));
    assert_eq!(after_read(Ok(0xDEAD)), Err(QueueError::Deadlock));
    assert_eq!(after_read(Err(4)), Err(QueueError::Oserr(4)));
}

#[test]
fn event_notify_writes_one_to_the_side_with_waiters() {
    assert_eq!(notify_step(10, 2), Some((10, 1)));
    assert_eq!(notify_step(11, 0), None);
    assert_eq!(WAKE, 1);
}

#[test]
fn event_counter_takes_writes_up_to_its_limit() {
    assert_eq!(event_written(0, 1), Some(1));
    assert_eq!(event_written(5, 0xDEAD), Some(5 + 0xDEAD));
    assert_eq!(event_written(EVENT_MAX - 1, 1), Some(EVENT_MAX));
    assert_eq!(event_written(EVENT_MAX, 1), None);
    assert_eq!(event_written(u64::MAX, 1), None);
    assert_eq!(event_written(1, u64::MAX), None);
    assert_eq!(EVENT_MAX, u64::MAX - 1);
}

#[test]
fn event_control_is_set_up_with_its_descriptors() {
    let control = event_control();
    assert_eq!(control.event(Side::Left), 10);
    assert_eq!(control.event(Side::Right), 11);
    assert_eq!(control.count(Side::Left), 0);
    assert_eq!(control.count(Side::Right), 0);
    assert_eq!(control.waiters(Side::Left), 2);
    assert_eq!(control.half(Side::Right).offset, 72);
    assert_eq!(*control.stats(), Stats::new());
    let none = EventFdControlConfig::default();
    assert_eq!(none, EventFdControlConfig { left_event: NO_EVENT, right_event: NO_EVENT });
    assert_eq!(NO_EVENT, -1);
}

#[test]
fn event_wait_returns_at_once_if_the_offset_has_changed() {
    let mut control = event_control();
    assert_eq!(control.wait(Side::Left, 41), Ok(()));
    assert_eq!(control.stats().left_wait_yields_to_os, 0);
    assert_eq!(control.waiters(Side::Left), 2);
    assert_eq!(control.count(Side::Left), 0);
    assert_eq!(control.count(Side::Right), 0);
}

#[test]
fn event_wait_times_out_without_a_wake_up() {
    let mut control = event_control();
    assert_eq!(control.wait(Side::Right, 72), Err(QueueError::Deadlock));
    assert_eq!(control.stats().right_wait_yields_to_os, 1);
    // The thread that gave up did not leave the waiters, and told the peer.
    assert_eq!(control.waiters(Side::Right), 1);
    assert_eq!(control.count(Side::Left), 0xDEAD);
    assert_eq!(control.count(Side::Right), 0);
    // The peer reads the sentinel and gives up as well.
    assert_eq!(control.wait(Side::Left, 40), Err(QueueError::Deadlock));
    assert_eq!(control.count(Side::Left), 0);
    assert_eq!(control.waiters(Side::Left), 3);
    assert_eq!(control.load_offset(Side::Left), 40);
    assert_eq!(control.load_offset(Side::Right), 72);
}

#[test]
fn event_wait_reads_a_wake_up() {
    let mut control = event_control();
    assert_eq!(control.notify(Side::Left), Ok(()));
    assert_eq!(control.notify(Side::Left), Ok(()));
    assert_eq!(control.count(Side::Left), 2);
    assert_eq!(control.stats().left_notify_yields_to_os, 2);
    assert_eq!(control.wait(Side::Left, 40), Ok(()));
    assert_eq!(control.count(Side::Left), 0);
    assert_eq!(control.waiters(Side::Left), 2);
    assert_eq!(control.stats().left_wait_yields_to_os, 1);
    // Nobody waits on the right offset: nothing is written.
    assert_eq!(control.notify(Side::Right), Ok(()));
    assert_eq!(control.count(Side::Right), 0);
    assert_eq!(control.stats().right_notify_yields_to_os, 0);
}

#[test]
fn event_control_keeps_offsets_like_the_futex_one() {
    let mut control = event_control();
    assert_eq!(control.load_offset(Side::Left), 40);
    assert_eq!(control.cached_offset(Side::Right), None);
    assert_eq!(control.sync_load_offset(Side::Right), 72);
    assert_eq!(control.cached_offset(Side::Right), Some(72));
    control.commit_offset(Side::Left, 48);
    assert_eq!(control.load_offset(Side::Left), 48);
    control.fix_offsets(1, 2);
    assert_eq!(control.load_offset(Side::Left), 1);
    assert_eq!(control.load_offset(Side::Right), 2);
    assert_eq!(control.cached_offset(Side::Left), Some(1));
    let guard = control.lock(Side::Right).ok().unwrap();
    assert!(control.lock(Side::Right).is_err());
    control.unlock(guard);
    assert!(control.lock(Side::Right).is_ok());
}

#[test]
fn futex_wake_up_wakes_one() {
    assert_eq!(WAKE_ONE, 1);
}

#[test]
fn raw_mutex_is_taken_once() {
    let mut mutex = ShmemRawMutex::new(0);
    assert!(mutex.wait());
    let guard = mutex.lock().unwrap();
    assert!(!mutex.wait());
    assert!(mutex.lock().is_none());
    assert_eq!(mutex.unlock(guard), WAKE_ALL);
    assert!(mutex.wait());
    assert_eq!(ShmemRawMutex::after_exchange(Ok(0)), RawStep::Proceed);
    assert_eq!(ShmemRawMutex::after_exchange(Err(1)), RawStep::Sleep { expected: 1 });
    assert_eq!(ShmemRawMutex::after_load(0), RawStep::Proceed);
    assert_eq!(ShmemRawMutex::after_load(1), RawStep::Sleep { expected: 1 });
}
