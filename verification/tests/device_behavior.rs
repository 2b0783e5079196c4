//! Behavior of the register file and the UART state machine.

use pl011::device::SerialState;
use pl011::registers::{
    FifoError, SerialRegisters, FLAG_RXFE, FLAG_RXFF, FLAG_TXFE, INT_RX, INT_TX, LCR_FIFO_ENABLE,
    RSR_FRAMING, RSR_OVERRUN,
};

const DATA: u64 = 0x00;
const RSR_ECR: u64 = 0x04;
const FLAGS: u64 = 0x18;
const IBRD: u64 = 0x24;
const FBRD: u64 = 0x28;
const LCR: u64 = 0x2c;
const IFLS: u64 = 0x34;
const IMSC: u64 = 0x38;
const RIS: u64 = 0x3c;
const MIS: u64 = 0x40;
const ICR: u64 = 0x44;

#[test]
fn fifo_pops_in_push_order() {
    let mut s = SerialState::new(true, 0);
    for b in [10u8, 20, 30, 40, 50] {
        s.receive_byte(b);
    }
    assert_eq!(s.regs.read_count, 5);
    for expected in [10u32, 20, 30, 40, 50] {
        assert_eq!(s.read_register(DATA), expected);
    }
    assert_eq!(s.regs.read_count, 0);
}

#[test]
fn fifo_wraps_around_the_backing_store() {
    let mut s = SerialState::new(true, 0);
    for round in 0..5u8 {
        for i in 0..7u8 {
            s.receive_byte(100 + round * 7 + i);
        }
        for i in 0..7u8 {
            assert_eq!(s.read_register(DATA), (100 + round * 7 + i) as u32);
        }
    }
    assert_eq!(s.regs.read_count, 0);
}

#[test]
fn push_beyond_capacity_keeps_count_and_sets_overrun() {
    let mut s = SerialState::new(true, 0);
    for i in 0..16u8 {
        s.receive_byte(i);
    }
    assert_eq!(s.regs.read_count, 16);
    assert_eq!(s.read_register(RSR_ECR), 0);
    s.receive_byte(99);
    assert_eq!(s.regs.read_count, 16);
    assert_eq!(s.read_register(RSR_ECR), RSR_OVERRUN);
    // The oldest byte was overwritten: the queue now starts at 1.
    assert_eq!(s.read_register(DATA), 1);
}

#[test]
fn flags_follow_every_mutation() {
    let mut s = SerialState::new(true, 0);
    assert_eq!(s.read_register(FLAGS), FLAG_TXFE | FLAG_RXFE);
    // FIFO disabled: a single byte already reads as full.
    s.receive_byte(7);
    assert_eq!(s.read_register(FLAGS), FLAG_TXFE | FLAG_RXFF);
    // Enabling the FIFO recomputes the flags from the same occupancy.
    s.write_register(LCR, LCR_FIFO_ENABLE);
    assert_eq!(s.read_register(FLAGS), FLAG_TXFE);
    for i in 0..15u8 {
        s.receive_byte(i);
    }
    assert_eq!(s.read_register(FLAGS), FLAG_TXFE | FLAG_RXFF);
    while s.regs.read_count > 0 {
        s.read_register(DATA);
    }
    assert_eq!(s.read_register(FLAGS), FLAG_TXFE | FLAG_RXFE);
}

#[test]
fn trigger_level_interrupt_is_level_triggered() {
    let mut s = SerialState::new(true, 0);
    // Trigger at 8 entries (level select group 2).
    s.write_register(IFLS, 0x10);
    assert_eq!(s.regs.read_trigger, 8);
    for i in 0..7u8 {
        s.receive_byte(i);
        assert_eq!(s.read_register(RIS) & INT_RX, 0);
    }
    s.receive_byte(7);
    assert_ne!(s.read_register(RIS) & INT_RX, 0);
    s.read_register(DATA);
    assert_eq!(s.read_register(RIS) & INT_RX, 0);
}

#[test]
fn trigger_levels_encoded_by_ifl() {
    let mut s = SerialState::new(true, 0);
    for (sel, level) in [(0u32, 2u32), (1, 4), (2, 8), (3, 12), (4, 14), (5, 8), (7, 8)] {
        s.write_register(IFLS, sel * 8);
        assert_eq!(s.regs.read_trigger, level);
    }
}

#[test]
fn error_clear_write_clears_latched_errors() {
    let mut s = SerialState::new(true, 0);
    s.receive_byte_with_errors(0x55, RSR_FRAMING);
    // The error bits are latched when the byte is read out.
    assert_eq!(s.read_register(DATA), 0x55);
    assert_eq!(s.read_register(RSR_ECR), RSR_FRAMING);
    // Reading inspects without clearing; any write clears.
    assert_eq!(s.read_register(RSR_ECR), RSR_FRAMING);
    s.write_register(RSR_ECR, 0xdead_beef);
    assert_eq!(s.read_register(RSR_ECR), 0);
}

#[test]
fn pop_on_empty_reports_the_empty_condition() {
    let mut regs = SerialRegisters::new();
    assert_eq!(regs.pop(), Err(FifoError::Empty));
    // Through the bus, the empty data register reads as a zero sentinel.
    let mut s = SerialState::new(true, 0);
    assert_eq!(s.read_register(DATA), 0);
    assert_eq!(s.regs.read_count, 0);
}

#[test]
fn writes_to_unknown_offsets_are_absorbed() {
    let mut s = SerialState::new(true, 0);
    assert_eq!(s.write_register(0x100, 0xffff_ffff), None);
    assert_eq!(s.write_register(0x08, 7), None);
    assert_eq!(s.read_register(0x100), 0);
    assert_eq!(s.regs.read_count, 0);
    assert_eq!(s.read_register(FLAGS), FLAG_TXFE | FLAG_RXFE);
}

#[test]
fn transmit_returns_the_byte_and_raises_the_tx_interrupt() {
    let mut s = SerialState::new(true, 0);
    assert_eq!(s.write_register(DATA, 0x141), Some(0x41));
    assert_ne!(s.read_register(RIS) & INT_TX, 0);
    // An explicit write to the interrupt-clear register drops the bit.
    s.write_register(ICR, INT_TX);
    assert_eq!(s.read_register(RIS) & INT_TX, 0);
}

#[test]
fn interrupt_line_is_the_masked_status() {
    let mut s = SerialState::new(true, 0);
    s.write_register(IFLS, 0x10);
    for i in 0..8u8 {
        s.receive_byte(i);
    }
    // Receive-level interrupt pending but masked off.
    assert!(!s.interrupt_line());
    assert_eq!(s.read_register(MIS), 0);
    s.write_register(IMSC, INT_RX);
    assert!(s.interrupt_line());
    assert_eq!(s.read_register(MIS), INT_RX);
    s.write_register(IMSC, 0);
    assert!(!s.interrupt_line());
}

#[test]
fn divisor_registers_hold_their_masked_values() {
    let mut s = SerialState::new(true, 0);
    s.write_register(IBRD, 10);
    s.write_register(FBRD, 5);
    assert_eq!(s.read_register(IBRD), 10);
    assert_eq!(s.read_register(FBRD), 5);
    // Only the low 16 and 6 bits are implemented.
    s.write_register(IBRD, 0x12_0034);
    s.write_register(FBRD, 0xff);
    assert_eq!(s.read_register(IBRD), 0x34);
    assert_eq!(s.read_register(FBRD), 0x3f);
}
