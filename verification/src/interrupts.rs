//! Interrupt settings.

use vstd::prelude::*;

verus! {

/// The interrupt settings of a device.
pub struct Interrupts {
    /// Interrupts for this device enabled?
    pub interrupts_enabled: bool,
    /// Interrupt Throttling Rate
    pub itr_rate: u32,
    /// MSI or MSIX
    pub interrupt_type: u64,
    /// Interrupt timeout in ms (-1 to disable timeout)
    pub timeout_ms: i16,
    /// Interrupt settings per queue
    pub queues: Vec<InterruptsQueue>,
}

/// The interrupt settings of a queue.
pub struct InterruptsQueue {
    /// Interrupt for this queue enabled?
    pub interrupt_enabled: bool,
}

/// The kinds of interrupts.
#[derive(Clone, Copy, Debug, PartialEq, Eq, Structural)]
pub enum InterruptType {
    Msi,
    Msix,
}

impl Interrupts {
    /// Interrupts are off, without throttling and without settings for any queue.
    pub open spec fn off(self) -> bool {
        &&& !self.interrupts_enabled
        &&& self.itr_rate == 0
        &&& self.interrupt_type == 0
        &&& self.timeout_ms == 0
        &&& self.queues@.len() == 0
    }
}

impl Default for Interrupts {
    /// Interrupts are off, without throttling and without settings for any queue.
    fn default() -> (r: Interrupts)
        ensures
            r.off(),
    {
        Interrupts {
            interrupts_enabled: false,
            itr_rate: 0,
            interrupt_type: 0,
            timeout_ms: 0,
            queues: Vec::new(),
        }
    }
}

} // verus!
