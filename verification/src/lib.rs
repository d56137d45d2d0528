//! Driver logic for Intel 82599 10 Gb network cards.
//!
//! The library decides everything that a driver decides: how the card is set up, which buffer a
//! descriptor gets, when a packet is received or sent, which buffers come back. It does not touch
//! the card. What the card holds comes in as plain values, and what has to be done to the card goes
//! out as a list of operations ([`io::IoOp`]), which an [`io::Sequence`] turns into single
//! accesses.

pub mod calls;
pub mod constants;
pub mod descriptor;
pub mod effects;
pub mod hal;
pub mod init;
pub mod interrupts;
pub mod io;
pub mod ixgbe;
pub mod laws;
pub mod memory;
pub mod nic;
pub mod ownership;
pub mod programs;
pub mod progress;
pub mod results;
pub mod ring;
pub mod stats;

pub use hal::{BufferDirection, IxgbeHal};
pub use ixgbe::IxgbeDevice;
pub use memory::{alloc_pkt, MemPool, PhysAddr};
pub use nic::{NicDevice, RxBuffer, TxBuffer};
pub use stats::DeviceStats;

use vstd::prelude::*;

verus! {

/// Vendor ID for Intel.
pub const INTEL_VEND: u16 = 0x8086;

/// Device ID for the 82599ES, used to identify the device from the PCI space.
pub const INTEL_82599: u16 = 0x10FB;

/// Error type for Ixgbe functions.
#[derive(Debug, Clone, Copy, PartialEq, Eq, Structural)]
pub enum IxgbeError {
    /// Queue size is not aligned.
    QueueNotAligned,
    /// There are not enough descriptors available in the queue, try again later.
    QueueFull,
    /// No memory
    NoMemory,
    /// Allocated page not aligned.
    PageNotAligned,
    /// The device is not ready
    NotReady,
    /// Invalid `queue_id`
    InvalidQueue,
}

/// Result type for Ixgbe functions.
pub type IxgbeResult<T = ()> = Result<T, IxgbeError>;

} // verus!
