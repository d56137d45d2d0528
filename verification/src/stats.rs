//! The card's address and its counters.

use crate::constants::{
    IXGBE_GORCH, IXGBE_GORCL, IXGBE_GOTCH, IXGBE_GOTCL, IXGBE_GPRC, IXGBE_GPTC, IXGBE_LINKS,
    IXGBE_RAH, IXGBE_RAL,
};
use crate::hal::IxgbeHal;
use crate::io::IoOp;
use crate::ixgbe::IxgbeDevice;
use vstd::prelude::*;
use vstd::string::StringExecFns;

verus! {

/// The six bytes of an address whose halves the card holds as `low` and `high`.
pub open spec fn mac_bytes(low: u32, high: u32) -> Seq<u8> {
    seq![
        (low as int % 0x100) as u8,
        (low as int / 0x100 % 0x100) as u8,
        (low as int / 0x1_0000 % 0x100) as u8,
        (low as int / 0x100_0000) as u8,
        (high as int % 0x100) as u8,
        (high as int / 0x100 % 0x100) as u8,
    ]
}

/// The low half of an address.
pub open spec fn mac_low(mac: Seq<u8>) -> u32 {
    (mac[0] + 0x100 * mac[1] + 0x1_0000 * mac[2] + 0x100_0000 * mac[3]) as u32
}

/// The high half of an address.
pub open spec fn mac_high(mac: Seq<u8>) -> u32 {
    (mac[4] + 0x100 * mac[5]) as u32
}

/// Returns the address whose halves the card holds as `low` and `high`.
pub fn mac_from_halves(low: u32, high: u32) -> (r: [u8; 6])
    ensures
        r@ == mac_bytes(low, high),
        r@[0] == low & 0xff,
        r@[1] == (low >> 8u32) & 0xff,
        r@[2] == (low >> 16u32) & 0xff,
        r@[3] == low >> 24u32,
        r@[4] == high & 0xff,
        r@[5] == (high >> 8u32) & 0xff,
{
    assert(low & 0xff == low % 0x100) by (bit_vector);
    assert(low >> 8 & 0xff == low / 0x100 % 0x100) by (bit_vector);
    assert(low >> 16 & 0xff == low / 0x1_0000 % 0x100) by (bit_vector);
    assert(low >> 24 == low / 0x100_0000) by (bit_vector);
    assert(high & 0xff == high % 0x100) by (bit_vector);
    assert(high >> 8 & 0xff == high / 0x100 % 0x100) by (bit_vector);
    let r: [u8; 6] = [
        (low & 0xff) as u8,
        (low >> 8 & 0xff) as u8,
        (low >> 16 & 0xff) as u8,
        (low >> 24) as u8,
        (high & 0xff) as u8,
        (high >> 8 & 0xff) as u8,
    ];
    assert(r@ =~= mac_bytes(low, high));
    r
}

/// The decimal digit of a number less than ten.
pub open spec fn digit(d: nat) -> char {
    ('0' as u32 + d) as char
}

/// The decimal notation of a number.
pub open spec fn decimal(n: nat) -> Seq<char>
    decreases n,
{
    if n < 10 {
        seq![digit(n)]
    } else {
        decimal(n / 10).push(digit(n % 10))
    }
}

/// The decimal digit of a number less than ten.
fn digit_str(d: u64) -> (r: &'static str)
    requires
        d < 10,
    ensures
        r@ == seq![digit(d as nat)],
{
    proof {
        reveal_strlit("0");
        reveal_strlit("1");
        reveal_strlit("2");
        reveal_strlit("3");
        reveal_strlit("4");
        reveal_strlit("5");
        reveal_strlit("6");
        reveal_strlit("7");
        reveal_strlit("8");
        reveal_strlit("9");
    }
    let r: &'static str = if d == 0 {
        "0"
    } else if d == 1 {
        "1"
    } else if d == 2 {
        "2"
    } else if d == 3 {
        "3"
    } else if d == 4 {
        "4"
    } else if d == 5 {
        "5"
    } else if d == 6 {
        "6"
    } else if d == 7 {
        "7"
    } else if d == 8 {
        "8"
    } else {
        "9"
    };
    assert(r@ =~= seq![digit(d as nat)]);
    r
}

/// Adds the decimal notation of a number to a text.
pub(crate) fn push_decimal(text: &mut String, n: u64)
    ensures
        final(text)@ == old(text)@ + decimal(n as nat),
    decreases n,
{
    if n >= 10 {
        push_decimal(text, n / 10);
    }
    text.append(digit_str(n % 10));
    assert(text@ =~= old(text)@ + decimal(n as nat));
}

/// Holds network card stats about sent and received packets.
#[derive(Copy, Clone, Debug, PartialEq, Eq, Structural)]
pub struct DeviceStats {
    pub rx_pkts: u64,
    pub tx_pkts: u64,
    pub rx_bytes: u64,
    pub tx_bytes: u64,
}

impl Default for DeviceStats {
    /// Nothing has been sent or received.
    fn default() -> (r: DeviceStats)
        ensures
            r == (DeviceStats { rx_pkts: 0, tx_pkts: 0, rx_bytes: 0, tx_bytes: 0 }),
    {
        DeviceStats { rx_pkts: 0, tx_pkts: 0, rx_bytes: 0, tx_bytes: 0 }
    }
}

impl DeviceStats {
    /// Returns the stats as a text.
    pub fn fmt(&self) -> (r: String)
        ensures
            r@ == "rx_pkts: "@ + decimal(self.rx_pkts as nat) + ", tx_pkts: "@ + decimal(
                self.tx_pkts as nat,
            ) + ", rx_bytes: "@ + decimal(self.rx_bytes as nat) + ", tx_bytes: "@ + decimal(
                self.tx_bytes as nat,
            ),
    {
        let mut text: String = String::new();
        text.append("rx_pkts: ");
        assert(text@ =~= "rx_pkts: "@);
        push_decimal(&mut text, self.rx_pkts);
        text.append(", tx_pkts: ");
        push_decimal(&mut text, self.tx_pkts);
        text.append(", rx_bytes: ");
        push_decimal(&mut text, self.rx_bytes);
        text.append(", tx_bytes: ");
        push_decimal(&mut text, self.tx_bytes);
        text
    }
}

/// What the counters of the card hold, in the order in which they are read.
#[derive(Copy, Clone, Debug, PartialEq, Eq, Structural)]
pub struct Counters {
    pub gprc: u32,
    pub gptc: u32,
    pub gorcl: u32,
    pub gorch: u32,
    pub gotcl: u32,
    pub gotch: u32,
}

impl Counters {
    /// The bytes received.
    pub open spec fn rx_bytes(self) -> int {
        self.gorcl + 0x1_0000_0000 * self.gorch
    }

    /// The bytes sent.
    pub open spec fn tx_bytes(self) -> int {
        self.gotcl + 0x1_0000_0000 * self.gotch
    }
}

/// A counter of which the card holds the halves `low` and `high`.
fn join(low: u32, high: u32) -> (r: u64)
    ensures
        r == low + 0x1_0000_0000 * high,
{
    let wide: u64 = high as u64;
    assert(wide << 32 == wide * 0x1_0000_0000) by (bit_vector)
        requires
            wide <= 0xffff_ffff,
    ;
    low as u64 + (wide << 32)
}

impl<H: IxgbeHal> IxgbeDevice<H> {
    /// Returns the registers that hold the mac address of this device, the low half first.
    pub fn mac_addr_regs(&self) -> (r: [u32; 2])
        ensures
            r@ == seq![IXGBE_RAL(0), IXGBE_RAH(0)],
    {
        let r: [u32; 2] = [IXGBE_RAL(0), IXGBE_RAH(0)];
        assert(r@ =~= seq![IXGBE_RAL(0), IXGBE_RAH(0)]);
        r
    }

    /// Returns the register that holds the link status.
    pub fn link_reg(&self) -> (r: u32)
        ensures
            r == IXGBE_LINKS,
    {
        IXGBE_LINKS
    }

    /// Returns the registers of the counters, in the order of the fields of [`Counters`].
    pub fn stats_regs(&self) -> (r: [u32; 6])
        ensures
            r@ == seq![
                IXGBE_GPRC,
                IXGBE_GPTC,
                IXGBE_GORCL,
                IXGBE_GORCH,
                IXGBE_GOTCL,
                IXGBE_GOTCH,
            ],
    {
        let r: [u32; 6] = [
            IXGBE_GPRC,
            IXGBE_GPTC,
            IXGBE_GORCL,
            IXGBE_GORCH,
            IXGBE_GOTCL,
            IXGBE_GOTCH,
        ];
        assert(r@ =~= seq![
            IXGBE_GPRC,
            IXGBE_GPTC,
            IXGBE_GORCL,
            IXGBE_GORCH,
            IXGBE_GOTCL,
            IXGBE_GOTCH,
        ]);
        r
    }

    /// Adds what the counters of this device hold to `stats`.
    pub fn read_stats(&self, counters: Counters, stats: &mut DeviceStats)
        requires
            old(stats).rx_pkts + counters.gprc <= u64::MAX,
            old(stats).tx_pkts + counters.gptc <= u64::MAX,
            old(stats).rx_bytes + counters.rx_bytes() <= u64::MAX,
            old(stats).tx_bytes + counters.tx_bytes() <= u64::MAX,
        ensures
            *final(stats) == (DeviceStats {
                rx_pkts: (old(stats).rx_pkts + counters.gprc) as u64,
                tx_pkts: (old(stats).tx_pkts + counters.gptc) as u64,
                rx_bytes: (old(stats).rx_bytes + counters.rx_bytes()) as u64,
                tx_bytes: (old(stats).tx_bytes + counters.tx_bytes()) as u64,
            }),
            final(stats).rx_pkts == old(stats).rx_pkts + counters.gprc,
            final(stats).tx_pkts == old(stats).tx_pkts + counters.gptc,
            final(stats).rx_bytes == old(stats).rx_bytes + counters.gorcl + 0x1_0000_0000
                * counters.gorch,
            final(stats).tx_bytes == old(stats).tx_bytes + counters.gotcl + 0x1_0000_0000
                * counters.gotch,
    {
        stats.rx_pkts = stats.rx_pkts + counters.gprc as u64;
        stats.tx_pkts = stats.tx_pkts + counters.gptc as u64;
        stats.rx_bytes = stats.rx_bytes + join(counters.gorcl, counters.gorch);
        stats.tx_bytes = stats.tx_bytes + join(counters.gotcl, counters.gotch);
    }

    /// Sets the mac address of this device.
    pub fn set_mac_addr(&self, mac: [u8; 6], ops: &mut Vec<IoOp>)
        requires
            self@.window_wf(),
        ensures
            final(ops)@ == old(ops)@ + set_mac_ops(mac@),
            final(ops)@ == old(ops)@ + seq![
                IoOp::WriteReg {
                    reg: 0x5400,
                    value: (mac@[0] + 0x100 * mac@[1] + 0x1_0000 * mac@[2] + 0x100_0000
                        * mac@[3]) as u32,
                },
                IoOp::WriteReg { reg: 0x5404, value: (mac@[4] + 0x100 * mac@[5]) as u32 },
            ],
    {
        let m1: u32 = mac[1] as u32;
        let m2: u32 = mac[2] as u32;
        let m3: u32 = mac[3] as u32;
        let m5: u32 = mac[5] as u32;
        assert(m1 << 8 == 0x100 * m1 && m2 << 16 == 0x1_0000 * m2 && m3 << 24 == 0x100_0000 * m3
            && m5 << 8 == 0x100 * m5) by (bit_vector)
            requires
                m1 < 0x100,
                m2 < 0x100,
                m3 < 0x100,
                m5 < 0x100,
        ;
        let low: u32 = mac[0] as u32 + (m1 << 8) + (m2 << 16) + (m3 << 24);
        let high: u32 = mac[4] as u32 + (m5 << 8);
        self.set_reg32(ops, IXGBE_RAL(0), low);
        self.set_reg32(ops, IXGBE_RAH(0), high);
        assert(ops@ =~= old(ops)@ + set_mac_ops(mac@));
    }
}

/// Sets the mac address of the card.
pub open spec fn set_mac_ops(mac: Seq<u8>) -> Seq<IoOp> {
    seq![
        IoOp::WriteReg { reg: IXGBE_RAL(0), value: mac_low(mac) },
        IoOp::WriteReg { reg: IXGBE_RAH(0), value: mac_high(mac) },
    ]
}

} // verus!
