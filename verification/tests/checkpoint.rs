//! Checkpoint and restore: the versioned stream, its rejections, and the
//! round trip.

use pl011::device::SerialState;
use pl011::registers::{FLAG_TXFE, LCR_FIFO_ENABLE};
use pl011::vmstate::RestoreError;

const DATA: u64 = 0x00;
const FLAGS: u64 = 0x18;
const IBRD: u64 = 0x24;
const FBRD: u64 = 0x28;
const LCR: u64 = 0x2c;

/// An instance in a distinctive valid state, FIFO enabled, three bytes
/// queued, divisors set.
fn sample_instance() -> SerialState {
    let mut s = SerialState::new(true, 24_000_000);
    s.write_register(LCR, LCR_FIFO_ENABLE);
    s.write_register(IBRD, 10);
    s.write_register(FBRD, 5);
    s.receive_byte(0xaa);
    s.receive_byte(0xbb);
    s.receive_byte(0xcc);
    s
}

#[test]
fn round_trip_restores_the_full_register_set() {
    let saved = sample_instance();
    let stream = saved.save();
    let mut restored = SerialState::new(true, 0);
    assert_eq!(restored.restore(&stream), Ok(()));
    assert_eq!(restored.regs.flags, saved.regs.flags);
    assert_eq!(restored.regs.line_control, saved.regs.line_control);
    assert_eq!(
        restored.regs.receive_status_error_clear,
        saved.regs.receive_status_error_clear
    );
    assert_eq!(restored.regs.control, saved.regs.control);
    assert_eq!(restored.regs.dmacr, saved.regs.dmacr);
    assert_eq!(restored.regs.int_enabled, saved.regs.int_enabled);
    assert_eq!(restored.regs.int_level, saved.regs.int_level);
    assert_eq!(restored.regs.read_fifo, saved.regs.read_fifo);
    assert_eq!(restored.regs.ilpr, saved.regs.ilpr);
    assert_eq!(restored.regs.ibrd, saved.regs.ibrd);
    assert_eq!(restored.regs.fbrd, saved.regs.fbrd);
    assert_eq!(restored.regs.ifl, saved.regs.ifl);
    assert_eq!(restored.regs.read_pos, saved.regs.read_pos);
    assert_eq!(restored.regs.read_count, saved.regs.read_count);
    assert_eq!(restored.regs.read_trigger, saved.regs.read_trigger);
    assert_eq!(restored.clock_hz, 24_000_000);
    // A second save of the restored instance yields the same stream.
    assert_eq!(restored.save(), stream);
}

#[test]
fn restore_reconciles_divisors_and_flags() {
    let stream = sample_instance().save();
    let mut restored = SerialState::new(true, 0);
    assert_eq!(restored.restore(&stream), Ok(()));
    // Divisors come back unchanged; flags are recomputed to the
    // not-empty, not-full state of three queued bytes.
    assert_eq!(restored.read_register(IBRD), 10);
    assert_eq!(restored.read_register(FBRD), 5);
    assert_eq!(restored.regs.read_count, 3);
    assert_eq!(restored.read_register(FLAGS), FLAG_TXFE);
    // The queued bytes themselves survived.
    assert_eq!(restored.read_register(DATA), 0xaa);
    assert_eq!(restored.read_register(DATA), 0xbb);
    assert_eq!(restored.read_register(DATA), 0xcc);
}

#[test]
fn old_version_is_rejected_without_touching_the_target() {
    let mut stream = sample_instance().save();
    stream[0] = 1;  // top-level version below the readable minimum
    let mut target = SerialState::new(true, 7);
    target.receive_byte(0x11);
    assert_eq!(target.restore(&stream), Err(RestoreError::UnsupportedVersion));
    assert_eq!(target.regs.read_count, 1);
    assert_eq!(target.read_register(DATA), 0x11);
    assert_eq!(target.clock_hz, 7);
}

#[test]
fn future_version_is_rejected() {
    let mut stream = sample_instance().save();
    stream[0] = 3;
    let mut target = SerialState::new(true, 0);
    assert_eq!(target.restore(&stream), Err(RestoreError::UnsupportedVersion));
}

#[test]
fn nested_record_version_is_checked_too() {
    let mut stream = sample_instance().save();
    stream[8] = 1;  // register-record version below the minimum
    let mut target = SerialState::new(true, 0);
    assert_eq!(target.restore(&stream), Err(RestoreError::UnsupportedVersion));
}

#[test]
fn clock_subsection_version_is_checked() {
    let mut stream = sample_instance().save();
    stream[133] = 9;  // clock subsection version
    let mut target = SerialState::new(true, 0);
    assert_eq!(target.restore(&stream), Err(RestoreError::UnsupportedVersion));
}

#[test]
fn subsection_presence_must_match_the_predicate() {
    // Present in the stream, predicate false.
    let stream_with_clock = sample_instance().save();
    let mut no_clock = SerialState::new(false, 0);
    assert_eq!(
        no_clock.restore(&stream_with_clock),
        Err(RestoreError::SubsectionMismatch)
    );
    assert_eq!(no_clock.regs.read_count, 0);
    // Absent from the stream, predicate true.
    let mut bare = SerialState::new(false, 0);
    bare.receive_byte(0x22);
    let stream_without_clock = bare.save();
    let mut with_clock = SerialState::new(true, 0);
    assert_eq!(
        with_clock.restore(&stream_without_clock),
        Err(RestoreError::SubsectionMismatch)
    );
    // With the matching predicate the same stream restores.
    let mut matching = SerialState::new(false, 5);
    assert_eq!(matching.restore(&stream_without_clock), Ok(()));
    assert_eq!(matching.regs.read_count, 1);
    assert_eq!(matching.clock_hz, 5);
}

#[test]
fn truncated_streams_are_rejected() {
    let stream = sample_instance().save();
    for len in [0, 3, 11, 132, 140] {
        let cut: Vec<u8> = stream[..len].to_vec();
        let mut target = SerialState::new(true, 0);
        assert_eq!(target.restore(&cut), Err(RestoreError::TooShort));
        assert_eq!(target.regs.read_count, 0);
    }
}

#[test]
fn trailing_bytes_are_rejected() {
    let mut stream = sample_instance().save();
    stream.push(0);
    let mut target = SerialState::new(true, 0);
    assert_eq!(target.restore(&stream), Err(RestoreError::TrailingData));
}

#[test]
fn meaningless_subsection_marker_is_rejected() {
    let mut stream = sample_instance().save();
    stream[132] = 2;
    let mut target = SerialState::new(true, 0);
    assert_eq!(target.restore(&stream), Err(RestoreError::SubsectionMismatch));
}

#[test]
fn out_of_bounds_fifo_state_fails_reconciliation() {
    // The FIFO occupancy field sits after the header and 13 words.
    let mut stream = sample_instance().save();
    stream[124] = 17;  // read_count
    let mut target = SerialState::new(true, 0);
    target.receive_byte(0x33);
    assert_eq!(target.restore(&stream), Err(RestoreError::InvalidFifoState));
    assert_eq!(target.regs.read_count, 1);
    let mut stream2 = sample_instance().save();
    stream2[120] = 16;  // read_pos
    assert_eq!(target.restore(&stream2), Err(RestoreError::InvalidFifoState));
}

#[test]
fn post_load_recomputes_flags_and_checks_bounds() {
    let mut s = sample_instance();
    s.regs.flags = 0;  // stale on purpose, as after a raw field reload
    assert_eq!(s.post_load(2), Ok(()));
    assert_eq!(s.regs.flags, FLAG_TXFE);
    s.regs.read_count = 17;
    assert_eq!(s.post_load(2), Err(RestoreError::InvalidFifoState));
}

#[test]
fn clock_predicate_gates_the_stream_length() {
    let with_clock = SerialState::new(true, 123);
    assert!(with_clock.clock_needed());
    assert_eq!(with_clock.save().len(), 145);
    let without_clock = SerialState::new(false, 123);
    assert!(!without_clock.clock_needed());
    assert_eq!(without_clock.save().len(), 133);
}
