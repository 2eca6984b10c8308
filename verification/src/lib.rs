//! Discovery and asynchronous I/O against NVMe storage controllers.
//!
//! The crate models the software-visible state of the subsystem — the device
//! registry filled during a probe, the per-namespace queue pairs used for
//! lockless submission and completion, the completion bridge that turns a
//! polled hardware callback into a single-resolution result, and the
//! write-then-read command chain — and proves the contracts of each component.
//! The hardware itself (environment setup, DMA allocation, command transport)
//! sits behind a driver loop that feeds events into these functions.

pub mod bdev;
pub mod bridge;
pub mod buffer;
pub mod names;
pub mod qpair;
pub mod registry;
pub mod sequence;
pub mod thread;
