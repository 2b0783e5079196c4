//! The UART state machine: guest register reads and writes, asynchronous
//! byte arrival from the transport backend, and the interrupt line.
//!
//! The caller (the host framework) must serialize all accesses to one
//! instance; no operation here blocks, and none of them panics.  Writing
//! the data register hands the outgoing byte back to the caller, which
//! owns the transport backend.

use vstd::prelude::*;
use crate::registers::{
    fifo_entry, entry_byte, entry_errors, spec_flags, spec_rx_level, spec_trigger_level,
    SerialRegisters, CTRL_RESET, FIFO_CAPACITY, IFL_RESET, INT_TX, RSR_OVERRUN,
};

verus! {

/// The addressable registers of the device, keyed by their bus offset.
pub enum RegisterOffset {
    /// 0x00: data register; reading pops the FIFO, writing transmits.
    Data,
    /// 0x04: receive status (read) / error clear (write).
    ReceiveStatusErrorClear,
    /// 0x18: derived status flags, read-only.
    Flags,
    /// 0x20: IrDA low-power divisor.
    IrdaLowPower,
    /// 0x24: integer baud-rate divisor.
    IntegerBaudRate,
    /// 0x28: fractional baud-rate divisor.
    FractionalBaudRate,
    /// 0x2c: line control.
    LineControl,
    /// 0x30: control.
    Control,
    /// 0x34: interrupt FIFO level select.
    FifoLevelSelect,
    /// 0x38: interrupt mask.
    IntMask,
    /// 0x3c: raw interrupt status, read-only.
    RawIntStatus,
    /// 0x40: masked interrupt status, read-only.
    MaskedIntStatus,
    /// 0x44: interrupt clear, write-only.
    IntClear,
    /// 0x48: DMA control.
    DmaControl,
}

/// Which register a bus offset addresses, if any.
pub open spec fn decode_offset(offset: u64) -> Option<RegisterOffset> {
    if offset == 0x00 {
        Some(RegisterOffset::Data)
    } else if offset == 0x04 {
        Some(RegisterOffset::ReceiveStatusErrorClear)
    } else if offset == 0x18 {
        Some(RegisterOffset::Flags)
    } else if offset == 0x20 {
        Some(RegisterOffset::IrdaLowPower)
    } else if offset == 0x24 {
        Some(RegisterOffset::IntegerBaudRate)
    } else if offset == 0x28 {
        Some(RegisterOffset::FractionalBaudRate)
    } else if offset == 0x2c {
        Some(RegisterOffset::LineControl)
    } else if offset == 0x30 {
        Some(RegisterOffset::Control)
    } else if offset == 0x34 {
        Some(RegisterOffset::FifoLevelSelect)
    } else if offset == 0x38 {
        Some(RegisterOffset::IntMask)
    } else if offset == 0x3c {
        Some(RegisterOffset::RawIntStatus)
    } else if offset == 0x40 {
        Some(RegisterOffset::MaskedIntStatus)
    } else if offset == 0x44 {
        Some(RegisterOffset::IntClear)
    } else if offset == 0x48 {
        Some(RegisterOffset::DmaControl)
    } else {
        None
    }
}

/// One serial device instance: its register file, the migrate-clock
/// configuration toggle, and the frequency of its optional clock input.
pub struct SerialState {
    /// The register file and receive FIFO.
    pub regs: SerialRegisters,
    /// Whether the clock subsection takes part in checkpoint and restore.
    pub migrate_clock: bool,
    /// Frequency of the clock input, in hertz; kept as a plain value, the
    /// host framework owns the clock object itself.
    pub clock_hz: u64,
}

impl SerialState {
    /// A fresh instance in its reset state.  Migrating the clock is the
    /// configuration default.
    pub fn new(migrate_clock: bool, clock_hz: u64) -> (s: SerialState)
        ensures
            s.regs.wf(),
            s.regs.flags == spec_flags(0, 0, CTRL_RESET),
            s.regs.line_control == 0,
            s.regs.receive_status_error_clear == 0,
            s.regs.control == CTRL_RESET,
            s.regs.dmacr == 0,
            s.regs.int_enabled == 0,
            s.regs.int_level == 0,
            s.regs.fifo_view() == Seq::<u32>::empty(),
            s.regs.ilpr == 0,
            s.regs.ibrd == 0,
            s.regs.fbrd == 0,
            s.regs.ifl == IFL_RESET,
            s.regs.read_pos == 0,
            s.regs.read_count == 0,
            s.regs.read_trigger == spec_trigger_level(IFL_RESET),
            s.migrate_clock == migrate_clock,
            s.clock_hz == clock_hz,
    {
        SerialState { regs: SerialRegisters::new(), migrate_clock, clock_hz }
    }

    /// Whether the clock subsection is expected in this instance's
    /// checkpoint stream.
    pub fn clock_needed(&self) -> (b: bool)
        ensures
            b == self.migrate_clock,
    {
        self.migrate_clock
    }

    /// The externally asserted interrupt line: any enabled interrupt
    /// pending raises it.
    pub fn interrupt_line(&self) -> (b: bool)
        ensures
            b == (self.regs.int_enabled & self.regs.int_level != 0),
    {
        self.regs.int_enabled & self.regs.int_level != 0
    }

    /// Entry point for a byte arriving from the transport backend: the
    /// byte is pushed (latching overrun when the FIFO is already full),
    /// the flags are recomputed, and the level-triggered receive
    /// interrupt is re-evaluated.
    pub fn receive_byte(&mut self, byte: u8)
        requires
            old(self).regs.wf(),
        ensures
            final(self).regs.wf(),
            final(self).migrate_clock == old(self).migrate_clock,
            final(self).clock_hz == old(self).clock_hz,
            final(self).regs.line_control == old(self).regs.line_control,
            final(self).regs.control == old(self).regs.control,
            final(self).regs.dmacr == old(self).regs.dmacr,
            final(self).regs.int_enabled == old(self).regs.int_enabled,
            final(self).regs.ilpr == old(self).regs.ilpr,
            final(self).regs.ibrd == old(self).regs.ibrd,
            final(self).regs.fbrd == old(self).regs.fbrd,
            final(self).regs.ifl == old(self).regs.ifl,
            final(self).regs.read_trigger == old(self).regs.read_trigger,
            final(self).regs.int_level == spec_rx_level(
                old(self).regs.int_level,
                final(self).regs.read_count,
                old(self).regs.read_trigger,
            ),
            old(self).regs.read_count < FIFO_CAPACITY ==> {
                &&& final(self).regs.read_count == old(self).regs.read_count + 1
                &&& final(self).regs.receive_status_error_clear == old(self).regs.receive_status_error_clear
                &&& final(self).regs.fifo_view() == old(self).regs.fifo_view().push(
                    fifo_entry(byte, 0),
                )
            },
            old(self).regs.read_count == FIFO_CAPACITY ==> {
                &&& final(self).regs.read_count == FIFO_CAPACITY
                &&& final(self).regs.receive_status_error_clear == (old(self).regs.receive_status_error_clear | RSR_OVERRUN)
                &&& final(self).regs.fifo_view() == old(self).regs.fifo_view().skip(1).push(
                    fifo_entry(byte, 0),
                )
            },
    {
        self.regs.push(byte, 0);
        self.regs.update_rx_interrupt();
    }

    /// A byte arriving together with receive error bits, which travel in
    /// the FIFO entry and are latched into the status register when the
    /// entry is read out.
    pub fn receive_byte_with_errors(&mut self, byte: u8, error_flags: u32)
        requires
            old(self).regs.wf(),
        ensures
            final(self).regs.wf(),
            final(self).migrate_clock == old(self).migrate_clock,
            final(self).clock_hz == old(self).clock_hz,
            final(self).regs.int_level == spec_rx_level(
                old(self).regs.int_level,
                final(self).regs.read_count,
                old(self).regs.read_trigger,
            ),
            final(self).regs.read_trigger == old(self).regs.read_trigger,
            old(self).regs.read_count < FIFO_CAPACITY ==> {
                &&& final(self).regs.read_count == old(self).regs.read_count + 1
                &&& final(self).regs.fifo_view() == old(self).regs.fifo_view().push(
                    fifo_entry(byte, error_flags),
                )
            },
            old(self).regs.read_count == FIFO_CAPACITY ==> {
                &&& final(self).regs.read_count == FIFO_CAPACITY
                &&& final(self).regs.receive_status_error_clear == (old(self).regs.receive_status_error_clear | RSR_OVERRUN)
                &&& final(self).regs.fifo_view() == old(self).regs.fifo_view().skip(1).push(
                    fifo_entry(byte, error_flags),
                )
            },
    {
        self.regs.push(byte, error_flags);
        self.regs.update_rx_interrupt();
    }

    /// Guest register write.  A write to an offset that addresses no
    /// register is absorbed silently, matching permissive bus semantics.
    /// A write to the data register returns the byte the caller must hand
    /// to the transport backend; every other write returns nothing.
    pub fn write_register(&mut self, offset: u64, value: u32) -> (tx: Option<u8>)
        requires
            old(self).regs.wf(),
        ensures
            final(self).regs.wf(),
            final(self).migrate_clock == old(self).migrate_clock,
            final(self).clock_hz == old(self).clock_hz,
            match decode_offset(offset) {
                None => tx == Option::<u8>::None && final(self).regs == old(self).regs,
                Some(o) => match o {
                    RegisterOffset::Data => tx == Some((value % 0x100) as u8) && final(self).regs
                        == (SerialRegisters {
                        int_level: old(self).regs.int_level | INT_TX,
                        ..old(self).regs
                    }),
                    RegisterOffset::ReceiveStatusErrorClear => tx == Option::<u8>::None && final(self).regs == (SerialRegisters {
                        receive_status_error_clear: 0,
                        ..old(self).regs
                    }),
                    RegisterOffset::Flags => tx == Option::<u8>::None && final(self).regs == old(self).regs,
                    RegisterOffset::IrdaLowPower => tx == Option::<u8>::None && final(self).regs
                        == (SerialRegisters { ilpr: value, ..old(self).regs }),
                    RegisterOffset::IntegerBaudRate => tx == Option::<u8>::None && final(self).regs
                        == (SerialRegisters { ibrd: value % 0x10000, ..old(self).regs }),
                    RegisterOffset::FractionalBaudRate => tx == Option::<u8>::None && final(self).regs == (SerialRegisters { fbrd: value % 0x40, ..old(self).regs }),
                    RegisterOffset::LineControl => tx == Option::<u8>::None && final(self).regs
                        == (SerialRegisters {
                        line_control: value,
                        flags: spec_flags(old(self).regs.read_count, value, old(self).regs.control),
                        ..old(self).regs
                    }),
                    RegisterOffset::Control => tx == Option::<u8>::None && final(self).regs
                        == (SerialRegisters {
                        control: value,
                        flags: spec_flags(
                            old(self).regs.read_count,
                            old(self).regs.line_control,
                            value,
                        ),
                        ..old(self).regs
                    }),
                    RegisterOffset::FifoLevelSelect => tx == Option::<u8>::None && final(self).regs
                        == (SerialRegisters {
                        ifl: value,
                        read_trigger: spec_trigger_level(value),
                        int_level: spec_rx_level(
                            old(self).regs.int_level,
                            old(self).regs.read_count,
                            spec_trigger_level(value),
                        ),
                        ..old(self).regs
                    }),
                    RegisterOffset::IntMask => tx == Option::<u8>::None && final(self).regs
                        == (SerialRegisters { int_enabled: value, ..old(self).regs }),
                    RegisterOffset::RawIntStatus => tx == Option::<u8>::None && final(self).regs
                        == old(self).regs,
                    RegisterOffset::MaskedIntStatus => tx == Option::<u8>::None && final(self).regs
                        == old(self).regs,
                    RegisterOffset::IntClear => tx == Option::<u8>::None && final(self).regs
                        == (SerialRegisters {
                        int_level: old(self).regs.int_level & !value,
                        ..old(self).regs
                    }),
                    RegisterOffset::DmaControl => tx == Option::<u8>::None && final(self).regs
                        == (SerialRegisters { dmacr: value, ..old(self).regs }),
                },
            },
    {
        if offset == 0x00 {
            self.regs.int_level = self.regs.int_level | INT_TX;
            Some((value % 0x100) as u8)
        } else if offset == 0x04 {
            self.regs.receive_status_error_clear = 0;
            None
        } else if offset == 0x20 {
            self.regs.ilpr = value;
            None
        } else if offset == 0x24 {
            self.regs.ibrd = value % 0x10000;
            None
        } else if offset == 0x28 {
            self.regs.fbrd = value % 0x40;
            None
        } else if offset == 0x2c {
            self.regs.line_control = value;
            self.regs.recompute_flags();
            None
        } else if offset == 0x30 {
            self.regs.control = value;
            self.regs.recompute_flags();
            None
        } else if offset == 0x34 {
            self.regs.ifl = value;
            self.regs.read_trigger = trigger_level_of(value);
            self.regs.update_rx_interrupt();
            None
        } else if offset == 0x38 {
            self.regs.int_enabled = value;
            None
        } else if offset == 0x44 {
            self.regs.int_level = self.regs.int_level & !value;
            None
        } else if offset == 0x48 {
            self.regs.dmacr = value;
            None
        } else {
            None
        }
    }

    /// Guest register read.  Reading the data register pops the FIFO,
    /// latches the entry's error bits into the status register and
    /// re-evaluates the receive interrupt; on an empty FIFO it returns a
    /// zero sentinel and changes nothing.  Reads of unknown or write-only
    /// offsets return zero.
    pub fn read_register(&mut self, offset: u64) -> (r: u32)
        requires
            old(self).regs.wf(),
        ensures
            final(self).regs.wf(),
            final(self).migrate_clock == old(self).migrate_clock,
            final(self).clock_hz == old(self).clock_hz,
            match decode_offset(offset) {
                None => r == 0 && final(self).regs == old(self).regs,
                Some(o) => match o {
                    RegisterOffset::Data => {
                        if old(self).regs.read_count == 0 {
                            r == 0 && final(self).regs == old(self).regs
                        } else {
                            &&& r == entry_byte(old(self).regs.fifo_view()[0])
                            &&& final(self).regs.read_count == old(self).regs.read_count - 1
                            &&& final(self).regs.fifo_view() == old(self).regs.fifo_view().skip(1)
                            &&& final(self).regs.receive_status_error_clear == (old(self).regs.receive_status_error_clear | entry_errors(
                                old(self).regs.fifo_view()[0],
                            ))
                            &&& final(self).regs.int_level == spec_rx_level(
                                old(self).regs.int_level,
                                final(self).regs.read_count,
                                old(self).regs.read_trigger,
                            )
                            &&& final(self).regs.line_control == old(self).regs.line_control
                            &&& final(self).regs.control == old(self).regs.control
                            &&& final(self).regs.dmacr == old(self).regs.dmacr
                            &&& final(self).regs.int_enabled == old(self).regs.int_enabled
                            &&& final(self).regs.ilpr == old(self).regs.ilpr
                            &&& final(self).regs.ibrd == old(self).regs.ibrd
                            &&& final(self).regs.fbrd == old(self).regs.fbrd
                            &&& final(self).regs.ifl == old(self).regs.ifl
                            &&& final(self).regs.read_trigger == old(self).regs.read_trigger
                        }
                    },
                    RegisterOffset::ReceiveStatusErrorClear => r == old(self).regs.receive_status_error_clear && final(self).regs == old(self).regs,
                    RegisterOffset::Flags => r == old(self).regs.flags && final(self).regs == old(self).regs,
                    RegisterOffset::IrdaLowPower => r == old(self).regs.ilpr && final(self).regs
                        == old(self).regs,
                    RegisterOffset::IntegerBaudRate => r == old(self).regs.ibrd && final(self).regs
                        == old(self).regs,
                    RegisterOffset::FractionalBaudRate => r == old(self).regs.fbrd && final(self).regs == old(self).regs,
                    RegisterOffset::LineControl => r == old(self).regs.line_control && final(self).regs == old(self).regs,
                    RegisterOffset::Control => r == old(self).regs.control && final(self).regs
                        == old(self).regs,
                    RegisterOffset::FifoLevelSelect => r == old(self).regs.ifl && final(self).regs
                        == old(self).regs,
                    RegisterOffset::IntMask => r == old(self).regs.int_enabled && final(self).regs
                        == old(self).regs,
                    RegisterOffset::RawIntStatus => r == old(self).regs.int_level && final(self).regs == old(self).regs,
                    RegisterOffset::MaskedIntStatus => r == (old(self).regs.int_level & old(self).regs.int_enabled) && final(self).regs == old(self).regs,
                    RegisterOffset::IntClear => r == 0 && final(self).regs == old(self).regs,
                    RegisterOffset::DmaControl => r == old(self).regs.dmacr && final(self).regs
                        == old(self).regs,
                },
            },
    {
        if offset == 0x00 {
            let popped = self.regs.pop();
            match popped {
                Ok(entry) => {
                    self.regs.receive_status_error_clear = self.regs.receive_status_error_clear | (
                    (entry / 0x100) % 0x10);
                    self.regs.update_rx_interrupt();
                    entry % 0x100
                },
                Err(_) => 0,
            }
        } else if offset == 0x04 {
            self.regs.receive_status_error_clear
        } else if offset == 0x18 {
            self.regs.flags
        } else if offset == 0x20 {
            self.regs.ilpr
        } else if offset == 0x24 {
            self.regs.ibrd
        } else if offset == 0x28 {
            self.regs.fbrd
        } else if offset == 0x2c {
            self.regs.line_control
        } else if offset == 0x30 {
            self.regs.control
        } else if offset == 0x34 {
            self.regs.ifl
        } else if offset == 0x38 {
            self.regs.int_enabled
        } else if offset == 0x3c {
            self.regs.int_level
        } else if offset == 0x40 {
            self.regs.int_level & self.regs.int_enabled
        } else if offset == 0x48 {
            self.regs.dmacr
        } else {
            0
        }
    }
}

/// The receive trigger level encoded by an `ifl` value.
pub fn trigger_level_of(ifl: u32) -> (r: u32)
    ensures
        r == spec_trigger_level(ifl),
{
    let sel: u32 = (ifl / 8) % 8;
    if sel == 0 {
        2
    } else if sel == 1 {
        4
    } else if sel == 2 {
        8
    } else if sel == 3 {
        12
    } else if sel == 4 {
        14
    } else {
        8
    }
}

} // verus!
