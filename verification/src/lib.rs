//! A single-producer, single-consumer queue of byte messages over a ring of
//! shared memory that is mapped twice, back to back.
//!
//! The library holds what the two sides decide and what they may rely on:
//! the decisions of the ring engine ([`reservation`], [`effects`]), of the control planes
//! ([`control`]), of the handshakes ([`handshake`]) and of the mapper
//! ([`mmap`]) as functions of what a side has read, a queue that runs them
//! on memory of its own ([`queue`]), and the proofs that messages arrive
//! in order whatever the two sides do ([`protocol`], [`laws`]). System
//! calls and the shared memory itself are the caller's.
pub mod consistency;
pub mod control;
pub mod effects;
pub mod error;
pub mod frame;
pub mod framing;
pub mod handshake;
pub mod laws;
pub mod mmap;
pub mod model;
pub mod protocol;
pub mod queue;
pub mod random_bytes;
pub mod reservation;
pub mod ring;
pub mod shmem_mutex;
pub mod stats;
pub mod validator;
pub mod word;

pub use crate::control::eventfd::EventFdControl;
pub use crate::control::eventfd::EventFdControlConfig;
pub use crate::control::shmem_futex::ShmemFutexControl;
pub use crate::control::shmem_futex::ShmemFutexControlConfig;
pub use crate::control::Control;
pub use crate::queue::MemeQueue;
pub use crate::queue::MemeWriter;
