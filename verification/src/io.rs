//! What the driver does to the card: operations, and the machine that carries them out.
//!
//! The driver states what it wants done as a list of operations. A [`Sequence`] breaks them up into
//! single commands, each of which is one access to a register, to memory or to the clock. Whoever
//! runs the sequence performs the command and hands back what came of it.

use crate::constants::{
    IXGBE_LINKS, IXGBE_LINKS_SPEED_100_82599, IXGBE_LINKS_SPEED_10G_82599,
    IXGBE_LINKS_SPEED_1G_82599, IXGBE_LINKS_SPEED_82599, IXGBE_LINKS_UP,
};
use crate::memory::VirtAddr;
use vstd::prelude::*;

verus! {

/// The pause between two looks at a register that has not changed yet, in milliseconds.
pub const POLL_MILLIS: u64 = 100;

/// How long the driver waits for the link to come up, in seconds.
pub const LINK_TIMEOUT_SECS: u64 = 10;

/// An operation on the card or on the memory that it shares with the driver.
#[allow(inconsistent_fields)]
#[derive(Clone, Copy, Debug, PartialEq, Eq, Structural)]
pub enum IoOp {
    /// Writes `value` to register `reg`.
    WriteReg { reg: u32, value: u32 },
    /// Reads register `reg` for the effect of reading it.
    ReadReg { reg: u32 },
    /// Reads register `reg`, clears the bits `clear`, sets the bits `set` and writes it back.
    ModifyReg { reg: u32, clear: u32, set: u32 },
    /// Waits until all bits `mask` of register `reg` are clear.
    WaitClear { reg: u32, mask: u32 },
    /// Waits until all bits `mask` of register `reg` are set.
    WaitSet { reg: u32, mask: u32 },
    /// Waits for the link to come up, for some time.
    WaitLink,
    /// Waits for `millis` milliseconds.
    Sleep { millis: u64 },
    /// Sets `len` bytes of memory from `addr` on to `byte`.
    Fill { addr: VirtAddr, len: usize, byte: u8 },
    /// Writes `value` to memory at `addr`.
    Store32 { addr: VirtAddr, value: u32 },
    /// Writes `value` to memory at `addr`.
    Store64 { addr: VirtAddr, value: u64 },
}

impl IoOp {
    /// The register that the operation accesses, if it accesses one.
    pub open spec fn register(self) -> Option<u32> {
        match self {
            IoOp::WriteReg { reg, .. } => Some(reg),
            IoOp::ReadReg { reg } => Some(reg),
            IoOp::ModifyReg { reg, .. } => Some(reg),
            IoOp::WaitClear { reg, .. } => Some(reg),
            IoOp::WaitSet { reg, .. } => Some(reg),
            IoOp::WaitLink => Some(IXGBE_LINKS),
            _ => None,
        }
    }
}

/// A single access, or a pause.
#[allow(inconsistent_fields)]
#[derive(Clone, Copy, Debug, PartialEq, Eq, Structural)]
pub enum Command {
    /// Read register `reg` and hand its value back.
    ReadReg { reg: u32 },
    /// Write `value` to register `reg`.
    WriteReg { reg: u32, value: u32 },
    /// Read the clock and hand the time back.
    ReadClock,
    /// Wait for `millis` milliseconds.
    Sleep { millis: u64 },
    /// Set `len` bytes of memory from `addr` on to `byte`.
    Fill { addr: VirtAddr, len: usize, byte: u8 },
    /// Write `value` to memory at `addr`.
    Store32 { addr: VirtAddr, value: u32 },
    /// Write `value` to memory at `addr`.
    Store64 { addr: VirtAddr, value: u64 },
    /// Nothing is left to do.
    Finished,
}

/// What came of a command.
#[derive(Clone, Copy, Debug, PartialEq, Eq, Structural)]
pub enum Event {
    /// The sequence starts, or the last command has been performed.
    Done,
    /// The value of the register that was to be read.
    Value { value: u32 },
    /// The time in seconds.
    Clock { secs: u64 },
}

/// What a sequence waits for.
#[derive(Clone, Copy, Debug, PartialEq, Eq, Structural)]
pub enum Phase {
    /// Nothing: the next operation starts.
    Issue,
    /// The value of the register of the current operation.
    Value,
    /// The time at which waiting for the link starts.
    LinkStart,
    /// The link status, having waited for the link since `since`.
    LinkValue { since: u64 },
    /// The time, having found the link down.
    LinkClock { since: u64 },
}

/// The state of a sequence: the operations, the position of the current one, and what is awaited.
pub struct SequenceView {
    pub ops: Seq<IoOp>,
    pub pos: int,
    pub phase: Phase,
}

/// The value that a read-modify-write operation writes after it has read `value`.
pub open spec fn modified(value: u32, clear: u32, set: u32) -> u32 {
    (value & !clear) | set
}

/// The speed in Mbit/s that the link status register shows, 0 if the link is down.
pub open spec fn speed_of(links: u32) -> u16 {
    if links & IXGBE_LINKS_UP == 0 {
        0
    } else if links & IXGBE_LINKS_SPEED_82599 == IXGBE_LINKS_SPEED_100_82599 {
        100
    } else if links & IXGBE_LINKS_SPEED_82599 == IXGBE_LINKS_SPEED_1G_82599 {
        1000
    } else if links & IXGBE_LINKS_SPEED_82599 == IXGBE_LINKS_SPEED_10G_82599 {
        10000
    } else {
        0
    }
}

/// Returns the speed in Mbit/s that the link status register shows, 0 if the link is down.
pub fn link_speed(links: u32) -> (r: u16)
    ensures
        r == speed_of(links),
{
    if (links & IXGBE_LINKS_UP) == 0 {
        return 0;
    }
    let speed: u32 = links & IXGBE_LINKS_SPEED_82599;
    if speed == IXGBE_LINKS_SPEED_100_82599 {
        100
    } else if speed == IXGBE_LINKS_SPEED_1G_82599 {
        1000
    } else if speed == IXGBE_LINKS_SPEED_10G_82599 {
        10000
    } else {
        0
    }
}

/// Returns the time in seconds that a time stamp counter shows.
pub fn clock_secs(tsc: u64, frequency: u64) -> (r: u64)
    requires
        frequency > 0,
    ensures
        r == tsc as int / frequency as int,
{
    tsc / frequency
}

impl SequenceView {
    pub open spec fn wf(self) -> bool {
        &&& 0 <= self.pos <= self.ops.len()
        &&& self.phase != Phase::Issue ==> self.pos < self.ops.len()
        &&& match self.phase {
            Phase::Issue => true,
            Phase::Value => match self.ops[self.pos] {
                IoOp::ReadReg { .. } => true,
                IoOp::ModifyReg { .. } => true,
                IoOp::WaitClear { .. } => true,
                IoOp::WaitSet { .. } => true,
                _ => false,
            },
            _ => self.ops[self.pos] == IoOp::WaitLink,
        }
    }

    /// The event is one that the sequence waits for. The clock does not run backwards.
    pub open spec fn expects(self, event: Event) -> bool {
        match self.phase {
            Phase::Issue => event is Done,
            Phase::Value => event is Value,
            Phase::LinkStart => event is Clock,
            Phase::LinkValue { .. } => event is Value,
            Phase::LinkClock { since } => event matches Event::Clock { secs } && secs >= since,
        }
    }

    /// The state at the start of the operation at `pos`.
    pub open spec fn at(self, pos: int) -> SequenceView {
        SequenceView { pos, phase: Phase::Issue, ..self }
    }

    /// Starts the current operation: the next state, and the first command of the operation.
    pub open spec fn issue(self) -> (SequenceView, Command) {
        if self.pos >= self.ops.len() {
            (self, Command::Finished)
        } else {
            match self.ops[self.pos] {
                IoOp::WriteReg { reg, value } => (
                    self.at(self.pos + 1),
                    Command::WriteReg { reg, value },
                ),
                IoOp::Sleep { millis } => (self.at(self.pos + 1), Command::Sleep { millis }),
                IoOp::Fill { addr, len, byte } => (
                    self.at(self.pos + 1),
                    Command::Fill { addr, len, byte },
                ),
                IoOp::Store32 { addr, value } => (
                    self.at(self.pos + 1),
                    Command::Store32 { addr, value },
                ),
                IoOp::Store64 { addr, value } => (
                    self.at(self.pos + 1),
                    Command::Store64 { addr, value },
                ),
                IoOp::ReadReg { reg } => (self.awaiting(Phase::Value), Command::ReadReg { reg }),
                IoOp::ModifyReg { reg, .. } => (
                    self.awaiting(Phase::Value),
                    Command::ReadReg { reg },
                ),
                IoOp::WaitClear { reg, .. } => (
                    self.awaiting(Phase::Value),
                    Command::ReadReg { reg },
                ),
                IoOp::WaitSet { reg, .. } => (
                    self.awaiting(Phase::Value),
                    Command::ReadReg { reg },
                ),
                IoOp::WaitLink => (self.awaiting(Phase::LinkStart), Command::ReadClock),
            }
        }
    }

    /// The same position, with another phase.
    pub open spec fn awaiting(self, phase: Phase) -> SequenceView {
        SequenceView { phase, ..self }
    }

    /// What follows when the register of the current operation holds `value`.
    pub open spec fn on_value(self, value: u32) -> (SequenceView, Command) {
        let again = (self.at(self.pos), Command::Sleep { millis: POLL_MILLIS });
        match self.ops[self.pos] {
            IoOp::ModifyReg { reg, clear, set } => (
                self.at(self.pos + 1),
                Command::WriteReg { reg, value: modified(value, clear, set) },
            ),
            IoOp::WaitClear { mask, .. } => if value & mask == 0 {
                self.at(self.pos + 1).issue()
            } else {
                again
            },
            IoOp::WaitSet { mask, .. } => if value & mask == mask {
                self.at(self.pos + 1).issue()
            } else {
                again
            },
            _ => self.at(self.pos + 1).issue(),
        }
    }

    /// The next state and the next command after `event`.
    pub open spec fn next(self, event: Event) -> (SequenceView, Command) {
        match self.phase {
            Phase::Issue => self.issue(),
            Phase::Value => self.on_value(event->value),
            Phase::LinkStart => (
                self.awaiting(Phase::LinkValue { since: event->secs }),
                Command::ReadReg { reg: IXGBE_LINKS },
            ),
            Phase::LinkValue { since } => if speed_of(event->value) != 0 {
                self.at(self.pos + 1).issue()
            } else {
                (self.awaiting(Phase::LinkClock { since }), Command::ReadClock)
            },
            Phase::LinkClock { since } => if event->secs - since < LINK_TIMEOUT_SECS {
                (
                    self.awaiting(Phase::LinkValue { since }),
                    Command::ReadReg { reg: IXGBE_LINKS },
                )
            } else {
                self.at(self.pos + 1).issue()
            },
        }
    }
}

/// A list of operations that is being carried out.
pub struct Sequence {
    ops: Vec<IoOp>,
    pos: usize,
    phase: Phase,
}

impl View for Sequence {
    type V = SequenceView;

    closed spec fn view(&self) -> SequenceView {
        SequenceView { ops: self.ops@, pos: self.pos as int, phase: self.phase }
    }
}

impl Sequence {
    /// A sequence of `ops` that has not started yet.
    pub fn new(ops: Vec<IoOp>) -> (r: Sequence)
        ensures
            r@.wf(),
            r@ == (SequenceView { ops: ops@, pos: 0, phase: Phase::Issue }),
    {
        Sequence { ops, pos: 0, phase: Phase::Issue }
    }

    /// Returns whether the event is one that the sequence waits for.
    pub fn accepts(&self, event: Event) -> (r: bool)
        ensures
            r == self@.expects(event),
    {
        match (self.phase, event) {
            (Phase::Issue, Event::Done) => true,
            (Phase::Value, Event::Value { .. }) => true,
            (Phase::LinkStart, Event::Clock { .. }) => true,
            (Phase::LinkValue { .. }, Event::Value { .. }) => true,
            (Phase::LinkClock { since }, Event::Clock { secs }) => secs >= since,
            _ => false,
        }
    }

    /// Takes in what came of the last command, and returns the next one.
    pub fn step(&mut self, event: Event) -> (r: Command)
        requires
            old(self)@.wf(),
            old(self)@.expects(event),
        ensures
            final(self)@.wf(),
            (final(self)@, r) == old(self)@.next(event),
    {
        match (self.phase, event) {
            (Phase::Value, Event::Value { value }) => self.on_value(value),
            (Phase::LinkStart, Event::Clock { secs }) => {
                self.phase = Phase::LinkValue { since: secs };
                Command::ReadReg { reg: IXGBE_LINKS }
            },
            (Phase::LinkValue { since }, Event::Value { value }) => {
                if link_speed(value) != 0 {
                    self.advance();
                    self.issue()
                } else {
                    self.phase = Phase::LinkClock { since };
                    Command::ReadClock
                }
            },
            (Phase::LinkClock { since }, Event::Clock { secs }) => {
                if secs - since < LINK_TIMEOUT_SECS {
                    self.phase = Phase::LinkValue { since };
                    Command::ReadReg { reg: IXGBE_LINKS }
                } else {
                    self.advance();
                    self.issue()
                }
            },
            _ => self.issue(),
        }
    }

    /// Moves on to the start of the next operation.
    fn advance(&mut self)
        requires
            old(self)@.wf(),
            old(self)@.pos < old(self)@.ops.len(),
        ensures
            final(self)@ == old(self)@.at(old(self)@.pos + 1),
    {
        assert(self.ops.len() == self.ops@.len());
        self.pos = self.pos + 1;
        self.phase = Phase::Issue;
    }

    /// Starts the current operation.
    fn issue(&mut self) -> (r: Command)
        requires
            old(self)@.wf(),
            old(self)@.phase == Phase::Issue,
        ensures
            final(self)@.wf(),
            (final(self)@, r) == old(self)@.issue(),
    {
        if self.pos >= self.ops.len() {
            return Command::Finished;
        }
        match self.ops[self.pos] {
            IoOp::WriteReg { reg, value } => {
                self.advance();
                Command::WriteReg { reg, value }
            },
            IoOp::Sleep { millis } => {
                self.advance();
                Command::Sleep { millis }
            },
            IoOp::Fill { addr, len, byte } => {
                self.advance();
                Command::Fill { addr, len, byte }
            },
            IoOp::Store32 { addr, value } => {
                self.advance();
                Command::Store32 { addr, value }
            },
            IoOp::Store64 { addr, value } => {
                self.advance();
                Command::Store64 { addr, value }
            },
            IoOp::ReadReg { reg } => {
                self.phase = Phase::Value;
                Command::ReadReg { reg }
            },
            IoOp::ModifyReg { reg, .. } => {
                self.phase = Phase::Value;
                Command::ReadReg { reg }
            },
            IoOp::WaitClear { reg, .. } => {
                self.phase = Phase::Value;
                Command::ReadReg { reg }
            },
            IoOp::WaitSet { reg, .. } => {
                self.phase = Phase::Value;
                Command::ReadReg { reg }
            },
            IoOp::WaitLink => {
                self.phase = Phase::LinkStart;
                Command::ReadClock
            },
        }
    }

    /// Goes on after the register of the current operation was found to hold `value`.
    fn on_value(&mut self, value: u32) -> (r: Command)
        requires
            old(self)@.wf(),
            old(self)@.phase == Phase::Value,
        ensures
            final(self)@.wf(),
            (final(self)@, r) == old(self)@.on_value(value),
    {
        match self.ops[self.pos] {
            IoOp::ModifyReg { reg, clear, set } => {
                self.advance();
                Command::WriteReg { reg, value: (value & !clear) | set }
            },
            IoOp::WaitClear { mask, .. } => {
                if (value & mask) == 0 {
                    self.advance();
                    self.issue()
                } else {
                    self.phase = Phase::Issue;
                    Command::Sleep { millis: POLL_MILLIS }
                }
            },
            IoOp::WaitSet { mask, .. } => {
                if (value & mask) == mask {
                    self.advance();
                    self.issue()
                } else {
                    self.phase = Phase::Issue;
                    Command::Sleep { millis: POLL_MILLIS }
                }
            },
            _ => {
                self.advance();
                self.issue()
            },
        }
    }
}

} // verus!
