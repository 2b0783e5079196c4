//! The register file of the serial device: the addressable registers, the
//! bounded receive FIFO, and the derived `flags` register that must be
//! recomputed after every FIFO or control mutation.

use vstd::prelude::*;

verus! {

/// Depth of the receive FIFO.
pub const FIFO_CAPACITY: u32 = 16;

/// Flag register bit: receive FIFO empty.
pub const FLAG_RXFE: u32 = 0x10;
/// Flag register bit: receive FIFO full.
pub const FLAG_RXFF: u32 = 0x40;
/// Flag register bit: transmit FIFO empty (always set: bytes leave at once).
pub const FLAG_TXFE: u32 = 0x80;

/// Line-control bit: FIFOs enabled (depth 16 instead of 1).
pub const LCR_FIFO_ENABLE: u32 = 0x10;

/// Control register reset value: transmitter and receiver enabled.
pub const CTRL_RESET: u32 = 0x300;

/// Interrupt bit: receive FIFO reached its trigger level.
pub const INT_RX: u32 = 0x10;
/// Interrupt bit: transmit completed.
pub const INT_TX: u32 = 0x20;

/// Receive-status bit: framing error.
pub const RSR_FRAMING: u32 = 0x1;
/// Receive-status bit: parity error.
pub const RSR_PARITY: u32 = 0x2;
/// Receive-status bit: break condition.
pub const RSR_BREAK: u32 = 0x4;
/// Receive-status bit: overrun (a byte arrived into a full FIFO).
pub const RSR_OVERRUN: u32 = 0x8;

/// Reset value of the interrupt FIFO level select register: both trigger
/// levels at one half of the FIFO.
pub const IFL_RESET: u32 = 0x12;

/// A pop on an empty FIFO reports this condition to the caller.
#[derive(Debug, PartialEq, Eq, Structural)]
pub enum FifoError {
    Empty,
}

/// A FIFO entry packs the data byte with the per-byte receive error bits
/// (the four receive-status bits) above it.
pub open spec fn fifo_entry(byte: u8, error_flags: u32) -> u32 {
    (byte + (error_flags % 0x10) * 0x100) as u32
}

/// The data byte stored in a FIFO entry.
pub open spec fn entry_byte(entry: u32) -> u32 {
    entry % 0x100
}

/// The per-byte receive error bits stored in a FIFO entry.
pub open spec fn entry_errors(entry: u32) -> u32 {
    (entry / 0x100) % 0x10
}

/// What the `flags` register must hold for a given FIFO occupancy and
/// configuration: it is a pure function of `read_count`, `line_control`
/// and `control`, never stored state of its own.  With the FIFO disabled
/// the device holds at most one byte, so one byte already reads as full.
/// The transmitter never buffers, so its FIFO always reads as empty; the
/// control bits select no further flag in this model.
pub open spec fn spec_flags(read_count: u32, line_control: u32, control: u32) -> u32 {
    let base = if read_count == 0 {
        FLAG_TXFE | FLAG_RXFE
    } else {
        FLAG_TXFE
    };
    let cap = if line_control & LCR_FIFO_ENABLE != 0 {
        FIFO_CAPACITY
    } else {
        1u32
    };
    if read_count >= cap {
        base | FLAG_RXFF
    } else {
        base
    }
}

/// The receive trigger level selected by the `ifl` register: its second
/// three-bit group picks 2, 4, 8, 12 or 14 entries; other encodings fall
/// back to the half-FIFO level.
pub open spec fn spec_trigger_level(ifl: u32) -> u32 {
    let sel = (ifl / 8) % 8;
    if sel == 0 {
        2u32
    } else if sel == 1 {
        4u32
    } else if sel == 2 {
        8u32
    } else if sel == 3 {
        12u32
    } else if sel == 4 {
        14u32
    } else {
        8u32
    }
}

/// The receive-level interrupt is level-triggered: after any FIFO or
/// trigger mutation the bit is set exactly when the occupancy has reached
/// the trigger level.
pub open spec fn spec_rx_level(int_level: u32, read_count: u32, read_trigger: u32) -> u32 {
    if read_count >= read_trigger {
        int_level | INT_RX
    } else {
        int_level & !INT_RX
    }
}

/// The addressable register set of the device together with the receive
/// FIFO and its bookkeeping.
pub struct SerialRegisters {
    /// Derived status flags; always `spec_flags` of the current state.
    pub flags: u32,
    /// Word length, parity, stop bits and the FIFO-enable bit.
    pub line_control: u32,
    /// Latched receive error bits; reading inspects, writing clears.
    pub receive_status_error_clear: u32,
    /// Master enables for the device, transmitter and receiver.
    pub control: u32,
    /// DMA request enables.
    pub dmacr: u32,
    /// Interrupt mask.
    pub int_enabled: u32,
    /// Raw interrupt status.
    pub int_level: u32,
    /// Backing store of the receive FIFO; always `FIFO_CAPACITY` slots.
    pub read_fifo: Vec<u32>,
    /// IrDA low-power divisor; stored only.
    pub ilpr: u32,
    /// Integer part of the baud-rate divisor.
    pub ibrd: u32,
    /// Fractional part of the baud-rate divisor.
    pub fbrd: u32,
    /// Interrupt FIFO level select.
    pub ifl: u32,
    /// Index of the oldest FIFO entry.
    pub read_pos: u32,
    /// Number of entries currently in the FIFO.
    pub read_count: u32,
    /// Occupancy at which the receive-level interrupt asserts.
    pub read_trigger: u32,
}

impl SerialRegisters {
    /// Structural well-formedness: the FIFO store has its fixed depth and
    /// the occupancy and head index are in bounds.
    pub open spec fn fifo_bounded(&self) -> bool {
        &&& self.read_fifo@.len() == FIFO_CAPACITY
        &&& self.read_count <= FIFO_CAPACITY
        &&& self.read_pos < FIFO_CAPACITY
    }

    /// Full well-formedness: bounded FIFO state and fresh `flags`.
    pub open spec fn wf(&self) -> bool {
        &&& self.fifo_bounded()
        &&& self.flags == spec_flags(self.read_count, self.line_control, self.control)
    }

    /// The queued FIFO entries in arrival order, oldest first.
    pub open spec fn fifo_view(&self) -> Seq<u32> {
        Seq::new(
            self.read_count as nat,
            |i: int| self.read_fifo@[(self.read_pos + i) % (FIFO_CAPACITY as int)],
        )
    }

    /// A fresh register file in its reset state: FIFO empty, transmitter
    /// and receiver enabled, trigger level at half the FIFO.
    pub fn new() -> (r: SerialRegisters)
        ensures
            r.wf(),
            r.flags == spec_flags(0, 0, CTRL_RESET),
            r.line_control == 0,
            r.receive_status_error_clear == 0,
            r.control == CTRL_RESET,
            r.dmacr == 0,
            r.int_enabled == 0,
            r.int_level == 0,
            r.fifo_view() == Seq::<u32>::empty(),
            r.ilpr == 0,
            r.ibrd == 0,
            r.fbrd == 0,
            r.ifl == IFL_RESET,
            r.read_pos == 0,
            r.read_count == 0,
            r.read_trigger == spec_trigger_level(IFL_RESET),
    {
        let mut fifo: Vec<u32> = Vec::new();
        let mut i: u32 = 0;
        while i < FIFO_CAPACITY
            invariant
                i <= FIFO_CAPACITY,
                fifo@.len() == i,
            decreases FIFO_CAPACITY - i,
        {
            fifo.push(0);
            i = i + 1;
        }
        let r = SerialRegisters {
            flags: FLAG_TXFE | FLAG_RXFE,
            line_control: 0,
            receive_status_error_clear: 0,
            control: CTRL_RESET,
            dmacr: 0,
            int_enabled: 0,
            int_level: 0,
            read_fifo: fifo,
            ilpr: 0,
            ibrd: 0,
            fbrd: 0,
            ifl: IFL_RESET,
            read_pos: 0,
            read_count: 0,
            read_trigger: 8,
        };
        proof {
            assert(r.fifo_view() =~= Seq::<u32>::empty());
        }
        r
    }

    /// Recomputes the derived `flags` register from the current occupancy
    /// and configuration; every FIFO or control mutation ends with this.
    pub fn recompute_flags(&mut self)
        ensures
            *final(self) == (SerialRegisters {
                flags: spec_flags(old(self).read_count, old(self).line_control, old(self).control),
                ..*old(self)
            }),
    {
        let mut f: u32 = FLAG_TXFE;
        if self.read_count == 0 {
            f = f | FLAG_RXFE;
        }
        let cap: u32 = if self.line_control & LCR_FIFO_ENABLE != 0 {
            FIFO_CAPACITY
        } else {
            1
        };
        if self.read_count >= cap {
            f = f | FLAG_RXFF;
        }
        self.flags = f;
    }

    /// Re-evaluates the level-triggered receive interrupt bit against the
    /// current occupancy and trigger level.
    pub fn update_rx_interrupt(&mut self)
        ensures
            *final(self) == (SerialRegisters {
                int_level: spec_rx_level(
                    old(self).int_level,
                    old(self).read_count,
                    old(self).read_trigger,
                ),
                ..*old(self)
            }),
    {
        if self.read_count >= self.read_trigger {
            self.int_level = self.int_level | INT_RX;
        } else {
            self.int_level = self.int_level & !INT_RX;
        }
    }

    /// Appends a received byte with its per-byte error bits.  Into a full
    /// FIFO the oldest entry is overwritten and the sticky overrun bit is
    /// latched; the occupancy never exceeds the capacity.
    pub fn push(&mut self, byte: u8, error_flags: u32)
        requires
            old(self).wf(),
        ensures
            final(self).wf(),
            final(self).line_control == old(self).line_control,
            final(self).control == old(self).control,
            final(self).dmacr == old(self).dmacr,
            final(self).int_enabled == old(self).int_enabled,
            final(self).int_level == old(self).int_level,
            final(self).ilpr == old(self).ilpr,
            final(self).ibrd == old(self).ibrd,
            final(self).fbrd == old(self).fbrd,
            final(self).ifl == old(self).ifl,
            final(self).read_trigger == old(self).read_trigger,
            old(self).read_count < FIFO_CAPACITY ==> {
                &&& final(self).read_count == old(self).read_count + 1
                &&& final(self).read_pos == old(self).read_pos
                &&& final(self).receive_status_error_clear == old(self).receive_status_error_clear
                &&& final(self).fifo_view() == old(self).fifo_view().push(
                    fifo_entry(byte, error_flags),
                )
            },
            old(self).read_count == FIFO_CAPACITY ==> {
                &&& final(self).read_count == FIFO_CAPACITY
                &&& final(self).receive_status_error_clear == (old(self).receive_status_error_clear | RSR_OVERRUN)
                &&& final(self).receive_status_error_clear & RSR_OVERRUN != 0
                &&& final(self).fifo_view() == old(self).fifo_view().skip(1).push(
                    fifo_entry(byte, error_flags),
                )
            },
    {
        let slot: usize = ((self.read_pos + self.read_count) % FIFO_CAPACITY) as usize;
        let entry: u32 = byte as u32 + (error_flags % 0x10) * 0x100;
        self.read_fifo[slot] = entry;
        if self.read_count == FIFO_CAPACITY {
            self.read_pos = (self.read_pos + 1) % FIFO_CAPACITY;
            self.receive_status_error_clear = self.receive_status_error_clear | RSR_OVERRUN;
            proof {
                let x = old(self).receive_status_error_clear;
                assert((x | 0x8u32) & 0x8u32 != 0) by (bit_vector);
            }
        } else {
            self.read_count = self.read_count + 1;
        }
        self.recompute_flags();
        proof {
            let oldr = *old(self);
            let e = fifo_entry(byte, error_flags);
            if oldr.read_count < FIFO_CAPACITY {
                assert forall|i: int| 0 <= i < oldr.read_count implies self.fifo_view()[i]
                    == oldr.fifo_view()[i] by {
                    lemma_wrap_distinct(
                        (oldr.read_pos + i) as u32,
                        (oldr.read_pos + oldr.read_count) as u32,
                    );
                }
                assert(self.fifo_view()[oldr.read_count as int] == e);
                assert(self.fifo_view() =~= oldr.fifo_view().push(e));
            } else {
                assert forall|i: int| 0 <= i < 15 implies self.fifo_view()[i] == oldr.fifo_view()[
                    i + 1
                ] by {
                    lemma_wrap_shift(oldr.read_pos, (1 + i) as u32);
                    lemma_wrap_distinct(
                        (oldr.read_pos + 1 + i) as u32,
                        (oldr.read_pos + FIFO_CAPACITY) as u32,
                    );
                }
                lemma_wrap_shift(oldr.read_pos, 15);
                assert(self.fifo_view()[15] == e);
                assert(self.fifo_view() =~= oldr.fifo_view().skip(1).push(e));
            }
        }
    }

    /// Removes and returns the oldest FIFO entry; on an empty FIFO the
    /// state is left untouched and the empty condition is reported.
    pub fn pop(&mut self) -> (r: Result<u32, FifoError>)
        requires
            old(self).wf(),
        ensures
            final(self).wf(),
            old(self).read_count == 0 ==> {
                &&& r == Err::<u32, FifoError>(FifoError::Empty)
                &&& *final(self) == *old(self)
            },
            old(self).read_count > 0 ==> {
                &&& r == Ok::<u32, FifoError>(old(self).fifo_view()[0])
                &&& final(self).read_count == old(self).read_count - 1
                &&& final(self).read_pos == (old(self).read_pos + 1) % (FIFO_CAPACITY as int)
                &&& final(self).fifo_view() == old(self).fifo_view().skip(1)
                &&& final(self).read_fifo@ == old(self).read_fifo@
                &&& final(self).receive_status_error_clear == old(self).receive_status_error_clear
                &&& final(self).line_control == old(self).line_control
                &&& final(self).control == old(self).control
                &&& final(self).dmacr == old(self).dmacr
                &&& final(self).int_enabled == old(self).int_enabled
                &&& final(self).int_level == old(self).int_level
                &&& final(self).ilpr == old(self).ilpr
                &&& final(self).ibrd == old(self).ibrd
                &&& final(self).fbrd == old(self).fbrd
                &&& final(self).ifl == old(self).ifl
                &&& final(self).read_trigger == old(self).read_trigger
            },
    {
        if self.read_count == 0 {
            return Err(FifoError::Empty);
        }
        let entry: u32 = self.read_fifo[self.read_pos as usize];
        self.read_pos = (self.read_pos + 1) % FIFO_CAPACITY;
        self.read_count = self.read_count - 1;
        self.recompute_flags();
        proof {
            let oldr = *old(self);
            assert(oldr.fifo_view()[0] == oldr.read_fifo@[(oldr.read_pos as int)
                % (FIFO_CAPACITY as int)]);
            assert((oldr.read_pos as int) % (FIFO_CAPACITY as int) == oldr.read_pos as int);
            assert forall|i: int| 0 <= i < self.read_count implies self.fifo_view()[i]
                == oldr.fifo_view()[i + 1] by {
                lemma_wrap_shift(oldr.read_pos, (1 + i) as u32);
            }
            assert(self.fifo_view() =~= oldr.fifo_view().skip(1));
        }
        Ok(entry)
    }
}

/// Two slot indices whose raw positions differ by less than the FIFO depth
/// wrap to distinct slots.
proof fn lemma_wrap_distinct(a: u32, b: u32)
    by (bit_vector)
    requires
        a < b,
        b < a + 16,
        b < 64,
    ensures
        a % 16 != b % 16,
{
}

/// Wrapping the head index before adding an offset lands on the same slot
/// as wrapping the sum.
proof fn lemma_wrap_shift(p: u32, i: u32)
    by (bit_vector)
    requires
        p < 32,
        i < 32,
    ensures
        ((p % 16) + i) % 16 == (p + i) % 16,
{
}

} // verus!
