//! Counters of the times a control plane went to the kernel.
use crate::control::Side;
use vstd::prelude::*;

verus! {

/// How often each side parked in the kernel and how often it woke the peer.
#[derive(Clone, Copy, Debug, PartialEq, Eq, Structural)]
pub struct Stats {
    pub left_notify_yields_to_os: usize,
    pub right_notify_yields_to_os: usize,
    pub left_wait_yields_to_os: usize,
    pub right_wait_yields_to_os: usize,
}

/// The counter after one more event; it wraps like the atomic it stands for.
pub open spec fn bump(counter: usize) -> usize {
    if counter == usize::MAX {
        0
    } else {
        (counter + 1) as usize
    }
}

fn bumped(counter: usize) -> (next: usize)
    ensures
        next == bump(counter),
{
    if counter == usize::MAX {
        0
    } else {
        counter + 1
    }
}

impl Stats {
    /// Counters that have seen nothing yet.
    pub open spec fn spec_new() -> Stats {
        Stats {
            left_notify_yields_to_os: 0,
            right_notify_yields_to_os: 0,
            left_wait_yields_to_os: 0,
            right_wait_yields_to_os: 0,
        }
    }

    /// The counters after a wait on `side` parked in the kernel.
    pub open spec fn waited(self, side: Side) -> Stats {
        match side {
            Side::Left => Stats { left_wait_yields_to_os: bump(self.left_wait_yields_to_os), ..self },
            Side::Right => Stats {
                right_wait_yields_to_os: bump(self.right_wait_yields_to_os),
                ..self
            },
        }
    }

    /// The counters after a notification of `side` issued a wake-up.
    pub open spec fn notified(self, side: Side) -> Stats {
        match side {
            Side::Left => Stats {
                left_notify_yields_to_os: bump(self.left_notify_yields_to_os),
                ..self
            },
            Side::Right => Stats {
                right_notify_yields_to_os: bump(self.right_notify_yields_to_os),
                ..self
            },
        }
    }

    #[verifier::when_used_as_spec(spec_new)]
    pub fn new() -> (stats: Stats)
        ensures
            stats == Stats::spec_new(),
    {
        Stats {
            left_notify_yields_to_os: 0,
            right_notify_yields_to_os: 0,
            left_wait_yields_to_os: 0,
            right_wait_yields_to_os: 0,
        }
    }

    /// Counts a wait on `side` that parked in the kernel.
    pub fn record_wait(&mut self, side: Side)
        ensures
            *final(self) == old(self).waited(side),
    {
        match side {
            Side::Left => {
                self.left_wait_yields_to_os = bumped(self.left_wait_yields_to_os);
            },
            Side::Right => {
                self.right_wait_yields_to_os = bumped(self.right_wait_yields_to_os);
            },
        }
    }

    /// Counts a notification of `side` that issued a wake-up.
    pub fn record_notify(&mut self, side: Side)
        ensures
            *final(self) == old(self).notified(side),
    {
        match side {
            Side::Left => {
                self.left_notify_yields_to_os = bumped(self.left_notify_yields_to_os);
            },
            Side::Right => {
                self.right_notify_yields_to_os = bumped(self.right_notify_yields_to_os);
            },
        }
    }
}

impl Default for Stats {
    fn default() -> (stats: Stats)
        ensures
            stats == Stats::spec_new(),
    {
        Stats::new()
    }
}

} // verus!
