# ixgbe_driver

Driver logic for Intel 82599 10 Gb network cards, verified with Verus.

The library (`src/`) decides what a driver decides, and does not touch the card. What the card holds
comes in as plain values; what has to be done to the card goes out as a list of operations, which a
`Sequence` breaks up into single register and memory accesses, waits and pauses.

| Module | What is in it |
| --- | --- |
| `hal` | what the driver needs of the machine: DMA memory, addresses, time |
| `memory` | pools of packet buffers, and packets |
| `ring` | receive and transmit rings, and cleaning of transmit rings |
| `nic` | sending and receiving |
| `init` | setting a device up, stage by stage |
| `ixgbe` | the device: registers, interrupts, link, filters |
| `stats` | the card's address and its counters |
| `descriptor`, `interrupts`, `constants` | descriptor fields, interrupt settings, registers |
| `io` | operations, and the machine that carries them out |
| `programs` | the lists of operations that the functions of the device produce |
| `progress`, `ownership`, `laws` | what holds of the driver as a whole |

`app/` runs the driver on a card: volatile accesses, packets as slices that go back to their pool when
they are dropped, and logging.

Users implement `IxgbeHal`. The `ensures` clauses of that trait are the implementer's duty; everything
else is proved.
