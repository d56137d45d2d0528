//! The advanced transmit descriptor, field by field.

use vstd::prelude::*;

verus! {

// Transmit descriptor bits
/// Tx Command: End of Packet
pub const TX_CMD_EOP: u8 = 0x01;

/// Tx Command: Insert MAC FCS
pub const TX_CMD_IFCS: u8 = 0x02;

/// Tx Command: Insert Checksum
pub const TX_CMD_IC: u8 = 0x04;

/// Tx Command: Report Status
pub const TX_CMD_RS: u8 = 0x08;

/// Tx Command: Report Packet Sent
pub const TX_CMD_RPS: u8 = 0x10;

/// Tx Command: Descriptor Extension (Advanced format)
pub const TX_CMD_DEXT: u8 = 0x20;

/// Tx Command: VLAN Packet Enable
pub const TX_CMD_VLE: u8 = 0x40;

/// Tx Command: Interrupt Delay Enable
pub const TX_CMD_IDE: u8 = 0x80;

/// Tx Status: descriptor Done
pub const TX_STATUS_DD: u8 = 0x01;

/// Tx Descriptor Type: advanced
pub const TX_DTYP_ADV: u8 = 0x30;

/// Tx Descriptor paylen shift
///
/// The paylen is located at bit 46 in the upper 64 bits of the advanced Tx descriptor.
/// Since the upper 64 bits are divided into 4 parts (u16,u8,u8,u32),
/// the paylen is then located at bit 14 of the upper 32 bits of the descriptor.
pub const TX_PAYLEN_SHIFT: u8 = 14;

// Receive descriptor bits
/// Rx Status: Descriptor Done
pub const RX_STATUS_DD: u8 = 0x01;

/// Rx Status: End of Packet
pub const RX_STATUS_EOP: u8 = 0x02;

/// Advanced Transmit Descriptor used by the `ixgbe` NIC driver.
///
/// # Two usage modes
/// It has 2 modes: Read and Write Back, both of which use the whole 128 bits.
/// There is one transmit descriptor per transmit buffer; it can be converted between these 2 modes.
///
/// Read contains the addresses that the driver writes.
/// Write Back contains information the hardware writes on sending a packet.
#[derive(Clone, Copy, Debug, PartialEq, Eq, Structural)]
pub struct AdvancedTxDescriptor {
    /// Starting physical address of the buffer for the packet.
    pub packet_buffer_address: u64,
    /// Length of data buffer
    pub data_len: u16,
    /// A multi-part field:
    /// * `dtyp`: Descriptor Type, occupies bits `[7:4]`,
    /// * `mac`: options to apply LinkSec and time stamp, occupies bits `[3:2]`.
    pub dtyp_mac_rsv: u8,
    /// Command bits
    pub dcmd: u8,
    /// A multi-part field:
    /// * `paylen`: the size in bytes of the data buffer in host memory,
    ///   not including the fields that the hardware adds, occupies bits `[31:14]`.
    /// * `popts`: options to offload checksum calculation, occupies bits `[13:8]`.
    /// * `sta`: status of the descriptor (whether it's in use or not), occupies bits `[3:0]`.
    pub paylen_popts_cc_idx_sta: u32,
}

impl AdvancedTxDescriptor {
    /// The card has sent the packet.
    pub open spec fn done(self) -> bool {
        self.paylen_popts_cc_idx_sta & 1 == 1
    }

    /// The second half of the descriptor as the card reads it: length, type, commands, status.
    pub open spec fn upper(self) -> int {
        self.data_len + 0x1_0000 * self.dtyp_mac_rsv + 0x100_0000 * self.dcmd + 0x1_0000_0000
            * self.paylen_popts_cc_idx_sta
    }

    /// Clears the descriptor.
    pub fn init(&mut self)
        ensures
            *final(self) == (AdvancedTxDescriptor {
                packet_buffer_address: 0,
                data_len: 0,
                dtyp_mac_rsv: 0,
                dcmd: 0,
                paylen_popts_cc_idx_sta: 0,
            }),
    {
        self.packet_buffer_address = 0;
        self.paylen_popts_cc_idx_sta = 0;
        self.dcmd = 0;
        self.dtyp_mac_rsv = 0;
        self.data_len = 0;
    }

    /// Asks the card to send the `transmit_buffer_length` bytes at `transmit_buffer_addr`: one
    /// whole packet, whose FCS the card inserts and whose status it reports.
    pub fn send(&mut self, transmit_buffer_addr: u64, transmit_buffer_length: u16)
        ensures
            *final(self) == (AdvancedTxDescriptor {
                packet_buffer_address: transmit_buffer_addr,
                data_len: transmit_buffer_length,
                dtyp_mac_rsv: TX_DTYP_ADV,
                dcmd: TX_CMD_DEXT | TX_CMD_RS | TX_CMD_IFCS | TX_CMD_EOP,
                paylen_popts_cc_idx_sta: (transmit_buffer_length * 0x4000) as u32,
            }),
            !final(self).done(),
    {
        self.packet_buffer_address = transmit_buffer_addr;
        self.data_len = transmit_buffer_length;
        self.dtyp_mac_rsv = TX_DTYP_ADV;
        self.paylen_popts_cc_idx_sta = (transmit_buffer_length as u32) << TX_PAYLEN_SHIFT;
        self.dcmd = TX_CMD_DEXT | TX_CMD_RS | TX_CMD_IFCS | TX_CMD_EOP;
        let ghost len = transmit_buffer_length as u32;
        assert(len << 14u8 == len * 0x4000 && (len << 14u8) & 1 != 1) by (bit_vector)
            requires
                len <= 0xffff,
        ;
    }

    /// Returns whether the card has sent the packet.
    pub fn packet_sent(&self) -> (r: bool)
        ensures
            r == self.done(),
    {
        let ghost status = self.paylen_popts_cc_idx_sta;
        assert((status as u8) & 1 == 0 <==> status & 1 != 1) by (bit_vector);
        let sta: u8 = self.paylen_popts_cc_idx_sta as u8;
        (sta & TX_STATUS_DD) != 0
    }

    /// Waits until the card has sent the packet. The descriptor must say so: it does not change
    /// while it is borrowed.
    pub fn wait_for_packet_tx(&self)
        requires
            self.done(),
    {
        while !self.packet_sent()
            invariant
                self.done(),
            decreases 0int,
        {
        }
    }
}

} // verus!
