//! The device: its queues, and what it asks of the card.

use crate::constants::{
    IXGBE_AUTOC, IXGBE_AUTOC_10G_PMA_PMD_MASK, IXGBE_AUTOC_10G_XAUI, IXGBE_AUTOC_AN_RESTART,
    IXGBE_AUTOC_LMS_10G_SERIAL, IXGBE_AUTOC_LMS_MASK, IXGBE_EIAC, IXGBE_EICR,
    IXGBE_EIMC, IXGBE_EIMS, IXGBE_EIMS_RTX_QUEUE, IXGBE_EITR, IXGBE_FCTRL, IXGBE_FCTRL_MPE,
    IXGBE_FCTRL_UPE, IXGBE_GPIE, IXGBE_GPIE_EIAME, IXGBE_GPIE_MSIX_MODE, IXGBE_GPIE_PBA_SUPPORT,
    IXGBE_IRQ_CLEAR_MASK, IXGBE_IVAR, IXGBE_IVAR_ALLOC_VAL, IXGBE_LINKS,
};
use crate::hal::IxgbeHal;
use crate::interrupts::Interrupts;
use crate::io::IoOp;
use crate::memory::{PoolView, VirtAddr};
use crate::programs;
use crate::ring::{IxgbeRxQueue, IxgbeTxQueue, RxView, TxView};
use core::marker::PhantomData;
use vstd::prelude::*;

verus! {

/// The greatest number of queues of a kind.
pub const MAX_QUEUES: u16 = 64;

/// The number of bytes of the card's register space that the driver uses in any case.
pub const MIN_WINDOW: usize = 0x1_0014;

/// Ixgbe device.
pub struct IxgbeDevice<H: IxgbeHal> {
    pub addr: VirtAddr,
    pub len: usize,
    pub num_rx_queues: u16,
    pub num_tx_queues: u16,
    pub rx_queues: Vec<IxgbeRxQueue>,
    pub tx_queues: Vec<IxgbeTxQueue>,
    pub interrupts: Interrupts,
    pub marker: PhantomData<H>,
}

/// What a device is, as a mathematical value.
pub struct DeviceView {
    pub addr: int,
    pub len: int,
    pub num_rx_queues: int,
    pub num_tx_queues: int,
    pub rx: Seq<RxView>,
    pub tx: Seq<TxView>,
    pub interrupts: Interrupts,
}

impl<H: IxgbeHal> View for IxgbeDevice<H> {
    type V = DeviceView;

    open spec fn view(&self) -> DeviceView {
        DeviceView {
            addr: self.addr as int,
            len: self.len as int,
            num_rx_queues: self.num_rx_queues as int,
            num_tx_queues: self.num_tx_queues as int,
            rx: self.rx_queues@.map_values(|q: IxgbeRxQueue| q@),
            tx: self.tx_queues@.map_values(|q: IxgbeTxQueue| q@),
            interrupts: self.interrupts,
        }
    }
}

impl DeviceView {
    /// The registers of the card that the driver uses in any case are mapped.
    pub open spec fn window_wf(self) -> bool {
        &&& MIN_WINDOW <= self.len
        &&& self.addr + self.len <= usize::MAX
    }

    /// The device has the queues that it was set up with, and each of them is well formed.
    pub open spec fn wf(self, pools: Seq<PoolView>) -> bool {
        &&& self.window_wf()
        &&& self.rx.len() == self.num_rx_queues <= MAX_QUEUES
        &&& self.tx.len() == self.num_tx_queues <= MAX_QUEUES
        &&& forall|i: int| 0 <= i < self.rx.len() ==> (#[trigger] self.rx[i]).wf(pools)
        &&& forall|i: int|
            0 <= i < self.tx.len() ==> {
                &&& (#[trigger] self.tx[i]).wf()
                &&& self.tx[i].pool matches Some(p) ==> p < pools.len()
            }
    }

    /// The register is mapped.
    pub open spec fn maps(self, reg: u32) -> bool {
        reg + 4 <= self.len
    }
}

// Register access
impl<H: IxgbeHal> IxgbeDevice<H> {
    /// Returns the address of a register of the device, which must be mapped.
    pub fn reg_addr(&self, reg: u32) -> (r: VirtAddr)
        requires
            self@.maps(reg),
            self@.addr + self@.len <= usize::MAX,
        ensures
            r == self@.addr + reg,
    {
        self.addr + reg as usize
    }

    /// Sets the register `reg` to `value`.
    pub fn set_reg32(&self, ops: &mut Vec<IoOp>, reg: u32, value: u32)
        requires
            self@.maps(reg),
        ensures
            final(ops)@ == old(ops)@.push(IoOp::WriteReg { reg, value }),
    {
        ops.push(IoOp::WriteReg { reg, value });
    }

    /// Reads the register `reg` for the effect of reading it.
    pub fn get_reg32(&self, ops: &mut Vec<IoOp>, reg: u32)
        requires
            self@.maps(reg),
        ensures
            final(ops)@ == old(ops)@.push(IoOp::ReadReg { reg }),
    {
        ops.push(IoOp::ReadReg { reg });
    }

    /// Clears the bits `clear` of the register `reg` and sets its bits `set`.
    pub fn modify_reg32(&self, ops: &mut Vec<IoOp>, reg: u32, clear: u32, set: u32)
        requires
            self@.maps(reg),
        ensures
            final(ops)@ == old(ops)@.push(IoOp::ModifyReg { reg, clear, set }),
    {
        ops.push(IoOp::ModifyReg { reg, clear, set });
    }

    /// Sets the `flags` of the register `reg`.
    pub fn set_flags32(&self, ops: &mut Vec<IoOp>, reg: u32, flags: u32)
        requires
            self@.maps(reg),
        ensures
            final(ops)@ == old(ops)@.push(programs::set_flags(reg, flags)),
    {
        self.modify_reg32(ops, reg, 0, flags);
    }

    /// Clears the `flags` of the register `reg`.
    pub fn clear_flags32(&self, ops: &mut Vec<IoOp>, reg: u32, flags: u32)
        requires
            self@.maps(reg),
        ensures
            final(ops)@ == old(ops)@.push(programs::clear_flags(reg, flags)),
    {
        self.modify_reg32(ops, reg, flags, 0);
    }

    /// Waits for the register `reg` to clear `value`.
    pub fn wait_clear_reg32(&self, ops: &mut Vec<IoOp>, reg: u32, value: u32)
        requires
            self@.maps(reg),
        ensures
            final(ops)@ == old(ops)@.push(IoOp::WaitClear { reg, mask: value }),
    {
        ops.push(IoOp::WaitClear { reg, mask: value });
    }

    /// Waits for the register `reg` to set `value`.
    pub fn wait_set_reg32(&self, ops: &mut Vec<IoOp>, reg: u32, value: u32)
        requires
            self@.maps(reg),
        ensures
            final(ops)@ == old(ops)@.push(IoOp::WaitSet { reg, mask: value }),
    {
        ops.push(IoOp::WaitSet { reg, mask: value });
    }
}

// Interrupts, link and filters
impl<H: IxgbeHal> IxgbeDevice<H> {
    /// Maps interrupt causes to vectors by specifying the `direction` (0 for Rx, 1 for Tx),
    /// the `queue` ID and the corresponding `msix_vector`.
    pub fn set_ivar(&self, ops: &mut Vec<IoOp>, direction: u32, queue: u16, msix_vector: u32)
        requires
            self@.maps(IXGBE_IVAR((queue as int / 2) as u32)),
            programs::ivar_shift(direction, queue) < 32,
        ensures
            final(ops)@ == old(ops)@.push(programs::ivar_op(direction, queue, msix_vector)),
    {
        let queue: u32 = queue as u32;
        assert(queue & 1 == queue % 2) by (bit_vector);
        assert(queue >> 1 == queue / 2) by (bit_vector);
        let index: u32 = 16 * (queue & 1) + 8 * direction;
        let vector: u32 = msix_vector | IXGBE_IVAR_ALLOC_VAL;
        self.modify_reg32(ops, IXGBE_IVAR(queue >> 1), 0xFFu32 << index, vector << index);
    }

    /// Clear all interrupt masks for all queues.
    pub fn clear_interrupts(&self, ops: &mut Vec<IoOp>)
        requires
            self@.window_wf(),
        ensures
            final(ops)@ == old(ops)@ + programs::clear_interrupts_ops(),
    {
        self.set_reg32(ops, IXGBE_EIMC, IXGBE_IRQ_CLEAR_MASK);
        self.get_reg32(ops, IXGBE_EICR);
        assert(ops@ =~= old(ops)@ + programs::clear_interrupts_ops());
    }

    /// Clear interrupt for queue with `queue_id`.
    pub fn clear_interrupt(&self, ops: &mut Vec<IoOp>, queue_id: u16)
        requires
            self@.window_wf(),
            queue_id < 32,
        ensures
            final(ops)@ == old(ops)@ + programs::clear_interrupt_ops(queue_id),
    {
        self.set_reg32(ops, IXGBE_EIMC, 1u32 << queue_id);
        self.get_reg32(ops, IXGBE_EICR);
        assert(ops@ =~= old(ops)@ + programs::clear_interrupt_ops(queue_id));
    }

    /// Disable all interrupts for all queues.
    pub fn disable_interrupts(&self, ops: &mut Vec<IoOp>)
        requires
            self@.window_wf(),
        ensures
            final(ops)@ == old(ops)@ + programs::disable_interrupts_ops(),
    {
        // Clear interrupt mask to stop from interrupts being generated
        self.set_reg32(ops, IXGBE_EIMS, 0);
        self.clear_interrupts(ops);
        assert(ops@ =~= old(ops)@ + programs::disable_interrupts_ops());
    }

    /// Disable interrupt for queue with `queue_id`.
    pub fn disable_interrupt(&self, ops: &mut Vec<IoOp>, queue_id: u16)
        requires
            self@.window_wf(),
            queue_id < 32,
        ensures
            final(ops)@ == old(ops)@ + programs::disable_interrupt_ops(queue_id),
    {
        // Clear interrupt mask to stop from interrupts being generated
        self.clear_flags32(ops, IXGBE_EIMS, 1u32 << queue_id);
        self.clear_interrupt(ops, queue_id);
        assert(ops@ =~= old(ops)@ + programs::disable_interrupt_ops(queue_id));
    }

    /// Enable MSI interrupt for queue with `queue_id`.
    pub fn enable_msi_interrupt(&self, ops: &mut Vec<IoOp>, queue_id: u16)
        requires
            self@.window_wf(),
            self@.maps(IXGBE_EITR(queue_id as u32)),
            queue_id < 32,
        ensures
            final(ops)@ == old(ops)@ + programs::enable_msi_ops(
                queue_id,
                self@.interrupts.itr_rate,
            ),
    {
        // The cause of the queue is tied to the interrupt by its IVAR register.
        self.set_ivar(ops, 0, queue_id, 0);
        // No cause is cleared automatically.
        self.set_reg32(ops, IXGBE_EIAC, 0);
        self.set_reg32(ops, IXGBE_EITR(queue_id as u32), self.interrupts.itr_rate);
        // Old causes are cleared before the cause of the queue is enabled.
        self.clear_interrupts(ops);
        self.set_flags32(ops, IXGBE_EIMS, 1u32 << queue_id);
        assert(ops@ =~= old(ops)@ + programs::enable_msi_ops(queue_id, self.interrupts.itr_rate));
    }

    /// Enable MSI-X interrupt for queue with `queue_id`.
    pub fn enable_msix_interrupt(&self, ops: &mut Vec<IoOp>, queue_id: u16)
        requires
            self@.window_wf(),
            self@.maps(IXGBE_EITR(queue_id as u32)),
            queue_id < 32,
        ensures
            final(ops)@ == old(ops)@ + programs::enable_msix_ops(
                queue_id,
                self@.interrupts.itr_rate,
            ),
    {
        self.set_flags32(
            ops,
            IXGBE_GPIE,
            IXGBE_GPIE_MSIX_MODE | IXGBE_GPIE_PBA_SUPPORT | IXGBE_GPIE_EIAME,
        );
        // Each queue has its own vector.
        self.set_ivar(ops, 0, queue_id, queue_id as u32);
        // The causes of the queues are cleared automatically.
        self.set_reg32(ops, IXGBE_EIAC, IXGBE_EIMS_RTX_QUEUE);
        self.set_reg32(ops, IXGBE_EITR(queue_id as u32), self.interrupts.itr_rate);
        self.set_flags32(ops, IXGBE_EIMS, 1u32 << queue_id);
        assert(ops@ =~= old(ops)@ + programs::enable_msix_ops(queue_id, self.interrupts.itr_rate));
    }

    /// Initializes the link of this device.
    pub fn init_link(&self, ops: &mut Vec<IoOp>)
        requires
            self@.window_wf(),
        ensures
            final(ops)@ == old(ops)@ + programs::init_link_ops(),
    {
        // link auto-configuration register should already be set correctly, it is reset anyway
        self.modify_reg32(ops, IXGBE_AUTOC, IXGBE_AUTOC_LMS_MASK, IXGBE_AUTOC_LMS_10G_SERIAL);
        self.modify_reg32(ops, IXGBE_AUTOC, IXGBE_AUTOC_10G_PMA_PMD_MASK, IXGBE_AUTOC_10G_XAUI);
        // negotiate link
        self.set_flags32(ops, IXGBE_AUTOC, IXGBE_AUTOC_AN_RESTART);
        assert(ops@ =~= old(ops)@ + programs::init_link_ops());
    }

    /// Enables or disables promisc mode of this device.
    pub fn set_promisc(&self, ops: &mut Vec<IoOp>, enabled: bool)
        requires
            self@.window_wf(),
        ensures
            final(ops)@ == old(ops)@.push(programs::promisc_op(enabled)),
    {
        if enabled {
            self.set_flags32(ops, IXGBE_FCTRL, IXGBE_FCTRL_MPE | IXGBE_FCTRL_UPE);
        } else {
            self.clear_flags32(ops, IXGBE_FCTRL, IXGBE_FCTRL_MPE | IXGBE_FCTRL_UPE);
        }
    }

    /// Waits for the link to come up.
    pub fn wait_for_link(&self, ops: &mut Vec<IoOp>)
        requires
            self@.window_wf(),
        ensures
            final(ops)@ == old(ops)@ + programs::wait_for_link_ops(),
    {
        ops.push(IoOp::WaitLink);
        self.get_reg32(ops, IXGBE_LINKS);
        assert(ops@ =~= old(ops)@ + programs::wait_for_link_ops());
    }

    /// Returns the number of receive queues.
    pub fn num_rx_queues(&self) -> (r: u16)
        ensures
            r == self@.num_rx_queues,
    {
        self.num_rx_queues
    }

    /// Returns the number of transmit queues.
    pub fn num_tx_queues(&self) -> (r: u16)
        ensures
            r == self@.num_tx_queues,
    {
        self.num_tx_queues
    }
}

} // verus!
