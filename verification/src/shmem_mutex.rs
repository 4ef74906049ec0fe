//! A two-state mutex on one word of shared memory: the word is zero while
//! the mutex is free and one while it is held, and whoever finds it held
//! sleeps on the word.
use vstd::prelude::*;

verus! {

/// The word of a mutex that nobody holds.
pub const RAW_FREE: u32 = 0;

/// The word of a mutex that is held.
pub const RAW_HELD: u32 = 1;

/// How many sleepers a release wakes: all of them.
pub const WAKE_ALL: u32 = 0xffff_ffff;

/// What a thread does after it looked at the word.
#[derive(Clone, Copy, Debug, PartialEq, Eq, Structural)]
pub enum RawStep {
    /// Go on: the mutex was taken, or was seen free.
    Proceed,
    /// Sleep on the word while it holds `expected`, then look again.
    Sleep { expected: u32 },
}

/// A mutex on one word.
pub struct ShmemRawMutex {
    futex: u32,
}

/// The proof of having taken a raw mutex.
pub struct ShmemRawMutexGuard {}

impl ShmemRawMutex {
    /// The word of the mutex.
    pub closed spec fn word(&self) -> u32 {
        self.futex
    }

    /// A mutex on a word that holds `futex`.
    pub fn new(futex: u32) -> (mutex: Self)
        ensures
            mutex.word() == futex,
    {
        ShmemRawMutex { futex }
    }

    /// What follows an exchange of `RAW_FREE` for `RAW_HELD`, given what
    /// the exchange returned.
    pub fn after_exchange(outcome: Result<u32, u32>) -> (step: RawStep)
        ensures
            step == if outcome is Ok {
                RawStep::Proceed
            } else {
                RawStep::Sleep { expected: RAW_HELD }
            },
    {
        if outcome.is_ok() {
            RawStep::Proceed
        } else {
            RawStep::Sleep { expected: RAW_HELD }
        }
    }

    /// What follows a look at the word by a thread that only waits for the
    /// mutex to be free.
    pub fn after_load(observed: u32) -> (step: RawStep)
        ensures
            step == if observed == RAW_FREE {
                RawStep::Proceed
            } else {
                RawStep::Sleep { expected: RAW_HELD }
            },
    {
        if observed == RAW_FREE {
            RawStep::Proceed
        } else {
            RawStep::Sleep { expected: RAW_HELD }
        }
    }

    /// Takes the mutex if it is free.
    pub fn lock(&mut self) -> (guard: Option<ShmemRawMutexGuard>)
        ensures
            guard is Some == (old(self).word() == RAW_FREE),
            final(self).word() == if old(self).word() == RAW_FREE {
                RAW_HELD
            } else {
                old(self).word()
            },
    {
        let outcome: Result<u32, u32> = if self.futex == RAW_FREE {
            Ok(self.futex)
        } else {
            Err(self.futex)
        };
        match Self::after_exchange(outcome) {
            RawStep::Proceed => {
                self.futex = RAW_HELD;
                Some(ShmemRawMutexGuard {  })
            },
            RawStep::Sleep { expected } => None,
        }
    }

    /// Whether the mutex is free, which is what a waiting thread waits for.
    pub fn wait(&self) -> (free: bool)
        ensures
            free == (self.word() == RAW_FREE),
    {
        match Self::after_load(self.futex) {
            RawStep::Proceed => true,
            RawStep::Sleep { expected } => false,
        }
    }

    /// Gives the mutex back; the result is the number of sleepers to wake.
    pub fn unlock(&mut self, guard: ShmemRawMutexGuard) -> (wake: u32)
        ensures
            final(self).word() == RAW_FREE,
            wake == WAKE_ALL,
    {
        self.futex = RAW_FREE;
        WAKE_ALL
    }
}

} // verus!
