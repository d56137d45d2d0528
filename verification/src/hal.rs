//! What the driver needs of the machine it runs on.

use crate::memory::{PhysAddr, VirtAddr};
use core::time::Duration;
use vstd::prelude::*;

verus! {

/// The interface which a particular hardware implementation must implement.
///
/// Each `ensures` clause below is a duty of the implementer. Nothing else is known of what a
/// method returns.
pub trait IxgbeHal: Sized {
    /// Allocates and zeroes `size` bytes of contiguous physical memory for DMA with the card.
    ///
    /// Returns both the physical address which the device can use to access the memory, and the
    /// virtual address at which the driver can access it.
    ///
    /// The virtual address must be that of valid memory, aligned to 2 and not null. The memory
    /// must be zeroed, and nothing else may use it until it is given back by `dma_dealloc`. All
    /// `size` bytes lie inside the virtual and inside the physical address space. No piece of
    /// memory is larger than `isize::MAX` bytes, so no more may be asked.
    fn dma_alloc(size: usize) -> (mem: (PhysAddr, VirtAddr))
        requires
            size <= isize::MAX,
        ensures
            mem.1 != 0,
            mem.1 % 2 == 0,
            mem.0 + size <= usize::MAX,
            mem.1 + size <= usize::MAX,
    ;

    /// Gives DMA memory back.
    ///
    /// The memory must have been allocated by `dma_alloc` on the same implementation, and not yet
    /// been given back. `size` must be the number that was passed to `dma_alloc`, and both
    /// addresses must be those that it returned.
    fn dma_dealloc(paddr: PhysAddr, vaddr: VirtAddr, size: usize) -> i32;

    /// Converts a physical address used for MMIO to a virtual address which the driver can access.
    ///
    /// This is only used for MMIO addresses within BARs read from the device, for the PCI
    /// transport. It may check that the address range up to the given size is within the region
    /// expected for MMIO. The virtual address must not be null.
    fn mmio_phys_to_virt(paddr: PhysAddr, size: usize) -> (vaddr: VirtAddr)
        ensures
            vaddr != 0,
    ;

    /// Converts a virtual address used by the driver to a physical address at which the device
    /// can use `size` bytes. Those bytes lie inside the virtual address space, and must lie inside
    /// the physical one.
    fn mmio_virt_to_phys(vaddr: VirtAddr, size: usize) -> (paddr: PhysAddr)
        requires
            vaddr + size <= usize::MAX,
        ensures
            paddr + size <= usize::MAX,
    ;

    /// Returns the frequency of the TSC in Hz.
    fn get_tsc_frequency() -> u64;

    /// Waits for the given duration.
    fn wait_until(duration: Duration) -> Result<(), &'static str>;
}

/// The direction in which a buffer is passed.
#[derive(Copy, Clone, Debug, Eq, PartialEq, Structural)]
pub enum BufferDirection {
    /// The buffer may be read or written by the driver, but only read by the device.
    DriverToDevice,
    /// The buffer may be read or written by the device, but only read by the driver.
    DeviceToDriver,
    /// The buffer may be read or written by both the device and the driver.
    Both,
}

} // verus!
