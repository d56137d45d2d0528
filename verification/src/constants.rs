//! Registers and register bits of the 82599.

use vstd::prelude::*;

verus! {

/// Device control.
pub const IXGBE_CTRL: u32 = 0x0000_0000;

/// Link reset.
pub const IXGBE_CTRL_LNK_RST: u32 = 0x0000_0008;

/// Device reset.
pub const IXGBE_CTRL_RST: u32 = 0x0400_0000;

/// Link reset and device reset.
pub const IXGBE_CTRL_RST_MASK: u32 = 0x0400_0008;

/// Extended device control.
pub const IXGBE_CTRL_EXT: u32 = 0x0000_0018;

/// No snoop disable.
pub const IXGBE_CTRL_EXT_NS_DIS: u32 = 0x0001_0000;

/// Interrupt cause, cleared by reading it.
pub const IXGBE_EICR: u32 = 0x0000_0800;

/// Interrupt auto clear.
pub const IXGBE_EIAC: u32 = 0x0000_0810;

/// Interrupt mask set and read.
pub const IXGBE_EIMS: u32 = 0x0000_0880;

/// The interrupt causes of the receive and transmit queues.
pub const IXGBE_EIMS_RTX_QUEUE: u32 = 0x0000_FFFF;

/// Interrupt mask clear.
pub const IXGBE_EIMC: u32 = 0x0000_0888;

/// All interrupt causes.
pub const IXGBE_IRQ_CLEAR_MASK: u32 = 0xFFFF_FFFF;

/// General purpose interrupt enable.
pub const IXGBE_GPIE: u32 = 0x0000_0898;

/// MSI-X mode.
pub const IXGBE_GPIE_MSIX_MODE: u32 = 0x0000_0010;

/// Interrupt auto mask enable.
pub const IXGBE_GPIE_EIAME: u32 = 0x4000_0000;

/// PBA support.
pub const IXGBE_GPIE_PBA_SUPPORT: u32 = 0x8000_0000;

/// An interrupt vector entry is valid.
pub const IXGBE_IVAR_ALLOC_VAL: u32 = 0x0000_0080;

/// Receive DMA control.
pub const IXGBE_RDRXCTL: u32 = 0x0000_2F00;

/// Strip the CRC in the receive DMA unit.
pub const IXGBE_RDRXCTL_CRCSTRIP: u32 = 0x0000_0002;

/// DMA initialization done.
pub const IXGBE_RDRXCTL_DMAIDONE: u32 = 0x0000_0008;

/// Receive control.
pub const IXGBE_RXCTRL: u32 = 0x0000_3000;

/// Receive enable.
pub const IXGBE_RXCTRL_RXEN: u32 = 0x0000_0001;

/// Good packets received.
pub const IXGBE_GPRC: u32 = 0x0000_4074;

/// Good packets transmitted.
pub const IXGBE_GPTC: u32 = 0x0000_4080;

/// Good octets received, low half.
pub const IXGBE_GORCL: u32 = 0x0000_4088;

/// Good octets received, high half.
pub const IXGBE_GORCH: u32 = 0x0000_408C;

/// Good octets transmitted, low half.
pub const IXGBE_GOTCL: u32 = 0x0000_4090;

/// Good octets transmitted, high half.
pub const IXGBE_GOTCH: u32 = 0x0000_4094;

/// MAC core control.
pub const IXGBE_HLREG0: u32 = 0x0000_4240;

/// Append a CRC to outgoing packets.
pub const IXGBE_HLREG0_TXCRCEN: u32 = 0x0000_0001;

/// Strip the CRC of incoming packets.
pub const IXGBE_HLREG0_RXCRCSTRP: u32 = 0x0000_0002;

/// Pad short outgoing packets.
pub const IXGBE_HLREG0_TXPADEN: u32 = 0x0000_0400;

/// Link auto-negotiation control.
pub const IXGBE_AUTOC: u32 = 0x0000_42A0;

/// 10 Gb/s interface type.
pub const IXGBE_AUTOC_10G_PMA_PMD_MASK: u32 = 0x0000_0180;

/// 10 Gb/s over XAUI.
pub const IXGBE_AUTOC_10G_XAUI: u32 = 0x0000_0000;

/// Restart auto-negotiation.
pub const IXGBE_AUTOC_AN_RESTART: u32 = 0x0000_1000;

/// Link mode.
pub const IXGBE_AUTOC_LMS_MASK: u32 = 0x0000_E000;

/// Link mode: 10 Gb/s serial.
pub const IXGBE_AUTOC_LMS_10G_SERIAL: u32 = 0x0000_6000;

/// Link status.
pub const IXGBE_LINKS: u32 = 0x0000_42A4;

/// The link is up.
pub const IXGBE_LINKS_UP: u32 = 0x4000_0000;

/// Speed of the link.
pub const IXGBE_LINKS_SPEED_82599: u32 = 0x3000_0000;

/// Link speed: 10 Gb/s.
pub const IXGBE_LINKS_SPEED_10G_82599: u32 = 0x3000_0000;

/// Link speed: 1 Gb/s.
pub const IXGBE_LINKS_SPEED_1G_82599: u32 = 0x2000_0000;

/// Link speed: 100 Mb/s.
pub const IXGBE_LINKS_SPEED_100_82599: u32 = 0x1000_0000;

/// Transmit descriptor plane control.
pub const IXGBE_RTTDCS: u32 = 0x0000_4900;

/// Transmit descriptor arbiter disable.
pub const IXGBE_RTTDCS_ARBDIS: u32 = 0x0000_0040;

/// Transmit DMA control.
pub const IXGBE_DMATXCTL: u32 = 0x0000_4A80;

/// Transmit enable.
pub const IXGBE_DMATXCTL_TE: u32 = 0x0000_0001;

/// Filter control.
pub const IXGBE_FCTRL: u32 = 0x0000_5080;

/// Multicast promiscuous enable.
pub const IXGBE_FCTRL_MPE: u32 = 0x0000_0100;

/// Unicast promiscuous enable.
pub const IXGBE_FCTRL_UPE: u32 = 0x0000_0200;

/// Broadcast accept mode.
pub const IXGBE_FCTRL_BAM: u32 = 0x0000_0400;

/// Transmit DMA maximum allowed size of requests.
pub const IXGBE_DTXMXSZRQ: u32 = 0x0000_8100;

/// EEPROM and flash control.
pub const IXGBE_EEC: u32 = 0x0001_0010;

/// EEPROM auto read done.
pub const IXGBE_EEC_ARD: u32 = 0x0000_0200;

/// Advanced descriptors with one buffer.
pub const IXGBE_SRRCTL_DESCTYPE_ADV_ONEBUF: u32 = 0x0200_0000;

/// Descriptor type.
pub const IXGBE_SRRCTL_DESCTYPE_MASK: u32 = 0x0E00_0000;

/// Drop packets when no descriptor is available.
pub const IXGBE_SRRCTL_DROP_EN: u32 = 0x1000_0000;

/// Receive queue enable.
pub const IXGBE_RXDCTL_ENABLE: u32 = 0x0200_0000;

/// Transmit queue enable.
pub const IXGBE_TXDCTL_ENABLE: u32 = 0x0200_0000;

/// Receive packet buffer size: 128 KB.
pub const IXGBE_RXPBSIZE_128KB: u32 = 0x0002_0000;

/// Transmit packet buffer size: 40 KB.
pub const IXGBE_TXPBSIZE_40KB: u32 = 0x0000_A000;

/// Received descriptor status: done.
pub const IXGBE_RXDADV_STAT_DD: u32 = 0x0000_0001;

/// Received descriptor status: end of packet.
pub const IXGBE_RXDADV_STAT_EOP: u32 = 0x0000_0002;

/// Advanced data descriptor.
pub const IXGBE_ADVTXD_DTYP_DATA: u32 = 0x0030_0000;

/// End of packet.
pub const IXGBE_ADVTXD_DCMD_EOP: u32 = 0x0100_0000;

/// Insert the FCS.
pub const IXGBE_ADVTXD_DCMD_IFCS: u32 = 0x0200_0000;

/// Report status.
pub const IXGBE_ADVTXD_DCMD_RS: u32 = 0x0800_0000;

/// Advanced descriptor format.
pub const IXGBE_ADVTXD_DCMD_DEXT: u32 = 0x2000_0000;

/// Position of the payload length.
pub const IXGBE_ADVTXD_PAYLEN_SHIFT: u32 = 14;

/// Sent descriptor status: done.
pub const IXGBE_ADVTXD_STAT_DD: u32 = 0x0000_0001;

/// Interrupt throttle of vector `i`.
#[verifier::allow_in_spec]
#[allow(non_snake_case)]
pub fn IXGBE_EITR(i: u32) -> u32
    requires
        i < 0x1_0000,
    returns
        (if i < 24 { 0x0820 + i * 4 } else { 0x1_2300 + (i - 24) * 4 }) as u32,
{
    if i < 24 { 0x0820 + i * 4 } else { 0x1_2300 + (i - 24) * 4 }
}

/// Interrupt vector allocation of queues `2 * i` and `2 * i + 1`.
#[verifier::allow_in_spec]
#[allow(non_snake_case)]
pub fn IXGBE_IVAR(i: u32) -> u32
    requires
        i < 0x8000,
    returns
        (0x0900 + i * 4) as u32,
{
    0x0900 + i * 4
}

/// Receive descriptor base address of queue `i`, low half.
#[verifier::allow_in_spec]
#[allow(non_snake_case)]
pub fn IXGBE_RDBAL(i: u32) -> u32
    requires
        i < 128,
    returns
        (if i < 64 { 0x1000 + i * 0x40 } else { 0xD000 + (i - 64) * 0x40 }) as u32,
{
    if i < 64 { 0x1000 + i * 0x40 } else { 0xD000 + (i - 64) * 0x40 }
}

/// Receive descriptor base address of queue `i`, high half.
#[verifier::allow_in_spec]
#[allow(non_snake_case)]
pub fn IXGBE_RDBAH(i: u32) -> u32
    requires
        i < 128,
    returns
        (if i < 64 { 0x1004 + i * 0x40 } else { 0xD004 + (i - 64) * 0x40 }) as u32,
{
    if i < 64 { 0x1004 + i * 0x40 } else { 0xD004 + (i - 64) * 0x40 }
}

/// Receive descriptor ring length of queue `i`, in bytes.
#[verifier::allow_in_spec]
#[allow(non_snake_case)]
pub fn IXGBE_RDLEN(i: u32) -> u32
    requires
        i < 128,
    returns
        (if i < 64 { 0x1008 + i * 0x40 } else { 0xD008 + (i - 64) * 0x40 }) as u32,
{
    if i < 64 { 0x1008 + i * 0x40 } else { 0xD008 + (i - 64) * 0x40 }
}

/// Receive descriptor head of queue `i`.
#[verifier::allow_in_spec]
#[allow(non_snake_case)]
pub fn IXGBE_RDH(i: u32) -> u32
    requires
        i < 128,
    returns
        (if i < 64 { 0x1010 + i * 0x40 } else { 0xD010 + (i - 64) * 0x40 }) as u32,
{
    if i < 64 { 0x1010 + i * 0x40 } else { 0xD010 + (i - 64) * 0x40 }
}

/// Receive descriptor tail of queue `i`.
#[verifier::allow_in_spec]
#[allow(non_snake_case)]
pub fn IXGBE_RDT(i: u32) -> u32
    requires
        i < 128,
    returns
        (if i < 64 { 0x1018 + i * 0x40 } else { 0xD018 + (i - 64) * 0x40 }) as u32,
{
    if i < 64 { 0x1018 + i * 0x40 } else { 0xD018 + (i - 64) * 0x40 }
}

/// Receive descriptor tail of queue `i`, as a virtual function addresses it.
#[verifier::allow_in_spec]
#[allow(non_snake_case)]
pub fn IXGBE_VFRDT(i: u32) -> u32
    requires
        i < 128,
    returns
        (0x1018 + i * 0x40) as u32,
{
    0x1018 + i * 0x40
}

/// Receive descriptor control of queue `i`.
#[verifier::allow_in_spec]
#[allow(non_snake_case)]
pub fn IXGBE_RXDCTL(i: u32) -> u32
    requires
        i < 128,
    returns
        (if i < 64 { 0x1028 + i * 0x40 } else { 0xD028 + (i - 64) * 0x40 }) as u32,
{
    if i < 64 { 0x1028 + i * 0x40 } else { 0xD028 + (i - 64) * 0x40 }
}

/// Split receive control of queue `i`.
#[verifier::allow_in_spec]
#[allow(non_snake_case)]
pub fn IXGBE_SRRCTL(i: u32) -> u32
    requires
        i < 128,
    returns
        (if i < 16 {
            0x2100 + i * 4
        } else if i < 64 {
            0x1014 + i * 0x40
        } else {
            0xD014 + (i - 64) * 0x40
        }) as u32,
{
    if i < 16 {
        0x2100 + i * 4
    } else if i < 64 {
        0x1014 + i * 0x40
    } else {
        0xD014 + (i - 64) * 0x40
    }
}

/// Receive DCA control of queue `i`.
#[verifier::allow_in_spec]
#[allow(non_snake_case)]
pub fn IXGBE_DCA_RXCTRL(i: u32) -> u32
    requires
        i < 128,
    returns
        (if i < 16 {
            0x2200 + i * 4
        } else if i < 64 {
            0x100C + i * 0x40
        } else {
            0xD00C + (i - 64) * 0x40
        }) as u32,
{
    if i < 16 {
        0x2200 + i * 4
    } else if i < 64 {
        0x100C + i * 0x40
    } else {
        0xD00C + (i - 64) * 0x40
    }
}

/// Size of receive packet buffer `i`.
#[verifier::allow_in_spec]
#[allow(non_snake_case)]
pub fn IXGBE_RXPBSIZE(i: u32) -> u32
    requires
        i < 8,
    returns
        (0x3C00 + i * 4) as u32,
{
    0x3C00 + i * 4
}

/// Receive address `i`, low half.
#[verifier::allow_in_spec]
#[allow(non_snake_case)]
pub fn IXGBE_RAL(i: u32) -> u32
    requires
        i < 128,
    returns
        (if i < 16 { 0x5400 + i * 8 } else { 0xA200 + i * 8 }) as u32,
{
    if i < 16 { 0x5400 + i * 8 } else { 0xA200 + i * 8 }
}

/// Receive address `i`, high half.
#[verifier::allow_in_spec]
#[allow(non_snake_case)]
pub fn IXGBE_RAH(i: u32) -> u32
    requires
        i < 128,
    returns
        (if i < 16 { 0x5404 + i * 8 } else { 0xA204 + i * 8 }) as u32,
{
    if i < 16 { 0x5404 + i * 8 } else { 0xA204 + i * 8 }
}

/// Transmit descriptor base address of queue `i`, low half.
#[verifier::allow_in_spec]
#[allow(non_snake_case)]
pub fn IXGBE_TDBAL(i: u32) -> u32
    requires
        i < 128,
    returns
        (0x6000 + i * 0x40) as u32,
{
    0x6000 + i * 0x40
}

/// Transmit descriptor base address of queue `i`, high half.
#[verifier::allow_in_spec]
#[allow(non_snake_case)]
pub fn IXGBE_TDBAH(i: u32) -> u32
    requires
        i < 128,
    returns
        (0x6004 + i * 0x40) as u32,
{
    0x6004 + i * 0x40
}

/// Transmit descriptor ring length of queue `i`, in bytes.
#[verifier::allow_in_spec]
#[allow(non_snake_case)]
pub fn IXGBE_TDLEN(i: u32) -> u32
    requires
        i < 128,
    returns
        (0x6008 + i * 0x40) as u32,
{
    0x6008 + i * 0x40
}

/// Transmit descriptor head of queue `i`.
#[verifier::allow_in_spec]
#[allow(non_snake_case)]
pub fn IXGBE_TDH(i: u32) -> u32
    requires
        i < 128,
    returns
        (0x6010 + i * 0x40) as u32,
{
    0x6010 + i * 0x40
}

/// Transmit descriptor tail of queue `i`.
#[verifier::allow_in_spec]
#[allow(non_snake_case)]
pub fn IXGBE_TDT(i: u32) -> u32
    requires
        i < 128,
    returns
        (0x6018 + i * 0x40) as u32,
{
    0x6018 + i * 0x40
}

/// Transmit descriptor control of queue `i`.
#[verifier::allow_in_spec]
#[allow(non_snake_case)]
pub fn IXGBE_TXDCTL(i: u32) -> u32
    requires
        i < 128,
    returns
        (0x6028 + i * 0x40) as u32,
{
    0x6028 + i * 0x40
}

/// Size of transmit packet buffer `i`.
#[verifier::allow_in_spec]
#[allow(non_snake_case)]
pub fn IXGBE_TXPBSIZE(i: u32) -> u32
    requires
        i < 8,
    returns
        (0xCC00 + i * 4) as u32,
{
    0xCC00 + i * 4
}

} // verus!
