//! The versioned checkpoint encoding of a device instance and its
//! restore path.
//!
//! The stream layout is a fixed contract: a four-byte format version, a
//! reserved four-byte padding field kept for compatibility, the embedded
//! register-file record (its own four-byte version followed by its
//! fifteen fields in declaration order, each little-endian), then a
//! one-byte marker for the optional clock subsection, whose presence must
//! agree with the instance's migrate-clock predicate, followed — when
//! present — by the subsection's version and the clock frequency.  A
//! failed restore leaves the target instance exactly as it was.

use vstd::prelude::*;
use crate::registers::{spec_flags, SerialRegisters, FIFO_CAPACITY};
use crate::device::SerialState;

verus! {

/// Format version this build writes, for the top-level record and the
/// embedded register-file record alike.
pub const VMSTATE_VERSION: u32 = 2;

/// Oldest format version this build can still read.
pub const VMSTATE_MINIMUM_VERSION: u32 = 2;

/// Version of the optional clock subsection.
pub const CLOCK_SECTION_VERSION: u32 = 1;

/// Why a restore was rejected.  Every rejection leaves the target
/// instance untouched.
#[derive(Debug, PartialEq, Eq, Structural)]
pub enum RestoreError {
    /// The stream ends before the record it announces is complete.
    TooShort,
    /// A record's version lies outside the readable window, or the clock
    /// subsection carries the wrong version.
    UnsupportedVersion,
    /// The clock subsection's presence disagrees with the instance's
    /// migrate-clock predicate, or its marker byte is meaningless.
    SubsectionMismatch,
    /// Bytes follow the end of the record.
    TrailingData,
    /// The restored FIFO occupancy or head index is out of bounds.
    InvalidFifoState,
}

/// A value of the register file as plain mathematical data: every
/// register, with the FIFO backing store as a sequence of entries.
#[verifier::ext_equal]
pub struct RegsModel {
    /// Derived status flags.
    pub flags: u32,
    /// Line control.
    pub line_control: u32,
    /// Latched receive error bits.
    pub receive_status_error_clear: u32,
    /// Control.
    pub control: u32,
    /// DMA control.
    pub dmacr: u32,
    /// Interrupt mask.
    pub int_enabled: u32,
    /// Raw interrupt status.
    pub int_level: u32,
    /// FIFO backing store.
    pub read_fifo: Seq<u32>,
    /// IrDA low-power divisor.
    pub ilpr: u32,
    /// Integer baud-rate divisor.
    pub ibrd: u32,
    /// Fractional baud-rate divisor.
    pub fbrd: u32,
    /// Interrupt FIFO level select.
    pub ifl: u32,
    /// FIFO head index.
    pub read_pos: u32,
    /// FIFO occupancy.
    pub read_count: u32,
    /// Receive trigger level.
    pub read_trigger: u32,
}

/// The model of a register file value.
pub open spec fn regs_model(r: SerialRegisters) -> RegsModel {
    RegsModel {
        flags: r.flags,
        line_control: r.line_control,
        receive_status_error_clear: r.receive_status_error_clear,
        control: r.control,
        dmacr: r.dmacr,
        int_enabled: r.int_enabled,
        int_level: r.int_level,
        read_fifo: r.read_fifo@,
        ilpr: r.ilpr,
        ibrd: r.ibrd,
        fbrd: r.fbrd,
        ifl: r.ifl,
        read_pos: r.read_pos,
        read_count: r.read_count,
        read_trigger: r.read_trigger,
    }
}

/// A word as four little-endian bytes.
pub open spec fn u32_le(v: u32) -> Seq<u8> {
    seq![
        (v % 0x100) as u8,
        ((v / 0x100) % 0x100) as u8,
        ((v / 0x10000) % 0x100) as u8,
        ((v / 0x1000000) % 0x100) as u8,
    ]
}

/// The word encoded little-endian at byte offset `k`.
pub open spec fn read_u32(b: Seq<u8>, k: int) -> u32 {
    (b[k] + b[k + 1] * 0x100 + b[k + 2] * 0x10000 + b[k + 3] * 0x1000000) as u32
}

/// A doubleword as eight little-endian bytes.
pub open spec fn u64_le(v: u64) -> Seq<u8> {
    seq![
        (v % 0x100) as u8,
        ((v / 0x100) % 0x100) as u8,
        ((v / 0x10000) % 0x100) as u8,
        ((v / 0x1000000) % 0x100) as u8,
        ((v / 0x100000000) % 0x100) as u8,
        ((v / 0x10000000000) % 0x100) as u8,
        ((v / 0x1000000000000) % 0x100) as u8,
        ((v / 0x100000000000000) % 0x100) as u8,
    ]
}

/// The doubleword encoded little-endian at byte offset `k`.
pub open spec fn read_u64(b: Seq<u8>, k: int) -> u64 {
    (b[k] + b[k + 1] * 0x100 + b[k + 2] * 0x10000 + b[k + 3] * 0x1000000 + b[k + 4] * 0x100000000
        + b[k + 5] * 0x10000000000 + b[k + 6] * 0x1000000000000 + b[k + 7]
        * 0x100000000000000) as u64
}

/// A run of words, each as four little-endian bytes.
pub open spec fn words_le(w: Seq<u32>) -> Seq<u8>
    decreases w.len(),
{
    if w.len() == 0 {
        Seq::empty()
    } else {
        u32_le(w[0]) + words_le(w.skip(1))
    }
}

/// The register-file fields that the checkpoint carries, in declaration
/// order: seven words, the sixteen FIFO slots, then seven more words.
pub open spec fn words_of_regs(r: SerialRegisters) -> Seq<u32> {
    seq![
        r.flags,
        r.line_control,
        r.receive_status_error_clear,
        r.control,
        r.dmacr,
        r.int_enabled,
        r.int_level,
    ] + r.read_fifo@ + seq![r.ilpr, r.ibrd, r.fbrd, r.ifl, r.read_pos, r.read_count, r.read_trigger]
}

/// The optional clock subsection: a presence marker, and when present
/// the subsection version and the clock frequency.
pub open spec fn clock_section(s: SerialState) -> Seq<u8> {
    if s.migrate_clock {
        seq![1u8] + u32_le(CLOCK_SECTION_VERSION) + u64_le(s.clock_hz)
    } else {
        seq![0u8]
    }
}

/// The complete checkpoint stream of an instance.
pub open spec fn spec_save(s: SerialState) -> Seq<u8> {
    u32_le(VMSTATE_VERSION) + seq![0u8, 0u8, 0u8, 0u8] + u32_le(VMSTATE_VERSION) + words_le(
        words_of_regs(s.regs),
    ) + clock_section(s)
}

/// What restoring a stream into an instance with the given migrate-clock
/// predicate yields: the restored register file (its `flags` recomputed,
/// never taken verbatim from the stream) and the restored clock
/// frequency when the subsection was present — or the reason the stream
/// is rejected.  The checks run in order: the top-level version, the
/// register-record version, the subsection marker against the predicate,
/// the subsection version, the exact stream length, and last the
/// post-restore bounds of the FIFO occupancy and head index.
pub open spec fn spec_restore(b: Seq<u8>, migrate_clock: bool) -> Result<
    (RegsModel, Option<u64>),
    RestoreError,
> {
    if b.len() < 4 {
        Err(RestoreError::TooShort)
    } else if read_u32(b, 0) < VMSTATE_MINIMUM_VERSION || read_u32(b, 0) > VMSTATE_VERSION {
        Err(RestoreError::UnsupportedVersion)
    } else if b.len() < 12 {
        Err(RestoreError::TooShort)
    } else if read_u32(b, 8) < VMSTATE_MINIMUM_VERSION || read_u32(b, 8) > VMSTATE_VERSION {
        Err(RestoreError::UnsupportedVersion)
    } else if b.len() < 133 {
        Err(RestoreError::TooShort)
    } else if b[132] != 0 && b[132] != 1 {
        Err(RestoreError::SubsectionMismatch)
    } else if (b[132] == 1) != migrate_clock {
        Err(RestoreError::SubsectionMismatch)
    } else if b[132] == 1 && b.len() < 145 {
        Err(RestoreError::TooShort)
    } else if b[132] == 1 && read_u32(b, 133) != CLOCK_SECTION_VERSION {
        Err(RestoreError::UnsupportedVersion)
    } else if b[132] == 1 && b.len() != 145 {
        Err(RestoreError::TrailingData)
    } else if b[132] == 0 && b.len() != 133 {
        Err(RestoreError::TrailingData)
    } else {
        let w = Seq::new(30, |i: int| read_u32(b, 12 + 4 * i));
        if w[28] > FIFO_CAPACITY || w[27] >= FIFO_CAPACITY {
            Err(RestoreError::InvalidFifoState)
        } else {
            Ok(
                (
                    RegsModel {
                        flags: spec_flags(w[28], w[1], w[3]),
                        line_control: w[1],
                        receive_status_error_clear: w[2],
                        control: w[3],
                        dmacr: w[4],
                        int_enabled: w[5],
                        int_level: w[6],
                        read_fifo: w.subrange(7, 23),
                        ilpr: w[23],
                        ibrd: w[24],
                        fbrd: w[25],
                        ifl: w[26],
                        read_pos: w[27],
                        read_count: w[28],
                        read_trigger: w[29],
                    },
                    if b[132] == 1 {
                        Some(read_u64(b, 137))
                    } else {
                        None
                    },
                ),
            )
        }
    }
}

/// Appends a word as four little-endian bytes.
fn push_u32_le(out: &mut Vec<u8>, v: u32)
    ensures
        final(out)@ == old(out)@ + u32_le(v),
{
    out.push((v % 0x100) as u8);
    out.push(((v / 0x100) % 0x100) as u8);
    out.push(((v / 0x10000) % 0x100) as u8);
    out.push(((v / 0x1000000) % 0x100) as u8);
    proof {
        assert(out@ =~= old(out)@ + u32_le(v));
    }
}

/// Appends a doubleword as eight little-endian bytes.
fn push_u64_le(out: &mut Vec<u8>, v: u64)
    ensures
        final(out)@ == old(out)@ + u64_le(v),
{
    out.push((v % 0x100) as u8);
    out.push(((v / 0x100) % 0x100) as u8);
    out.push(((v / 0x10000) % 0x100) as u8);
    out.push(((v / 0x1000000) % 0x100) as u8);
    out.push(((v / 0x100000000) % 0x100) as u8);
    out.push(((v / 0x10000000000) % 0x100) as u8);
    out.push(((v / 0x1000000000000) % 0x100) as u8);
    out.push(((v / 0x100000000000000) % 0x100) as u8);
    proof {
        assert(out@ =~= old(out)@ + u64_le(v));
    }
}

/// Reads the word at byte offset `k`.
fn get_u32(data: &Vec<u8>, k: usize) -> (r: u32)
    requires
        k + 4 <= data@.len(),
    ensures
        r == read_u32(data@, k as int),
{
    let n: usize = data.len();
    proof {
        assert(k + 4 <= n);
    }
    let b0: u32 = data[k] as u32;
    let b1: u32 = data[k + 1] as u32;
    let b2: u32 = data[k + 2] as u32;
    let b3: u32 = data[k + 3] as u32;
    b0 + b1 * 0x100 + b2 * 0x10000 + b3 * 0x1000000
}

/// Reads the doubleword at byte offset `k`.
fn get_u64(data: &Vec<u8>, k: usize) -> (r: u64)
    requires
        k + 8 <= data@.len(),
    ensures
        r == read_u64(data@, k as int),
{
    let n: usize = data.len();
    proof {
        assert(k + 8 <= n);
    }
    let b0: u64 = data[k] as u64;
    let b1: u64 = data[k + 1] as u64;
    let b2: u64 = data[k + 2] as u64;
    let b3: u64 = data[k + 3] as u64;
    let b4: u64 = data[k + 4] as u64;
    let b5: u64 = data[k + 5] as u64;
    let b6: u64 = data[k + 6] as u64;
    let b7: u64 = data[k + 7] as u64;
    b0 + b1 * 0x100 + b2 * 0x10000 + b3 * 0x1000000 + b4 * 0x100000000 + b5 * 0x10000000000 + b6
        * 0x1000000000000 + b7 * 0x100000000000000
}

/// Splitting a word run splits its encoding.
proof fn lemma_words_le_append(a: Seq<u32>, b: Seq<u32>)
    ensures
        words_le(a + b) == words_le(a) + words_le(b),
    decreases a.len(),
{
    if a.len() == 0 {
        assert(a + b =~= b);
        assert(words_le(a) + words_le(b) =~= words_le(b));
    } else {
        assert((a + b).skip(1) =~= a.skip(1) + b);
        lemma_words_le_append(a.skip(1), b);
        assert(u32_le((a + b)[0]) + (words_le(a.skip(1)) + words_le(b)) =~= (u32_le(a[0])
            + words_le(a.skip(1))) + words_le(b));
    }
}

/// A word run encodes to four bytes per word.
proof fn lemma_words_le_len(w: Seq<u32>)
    ensures
        words_le(w).len() == 4 * w.len(),
    decreases w.len(),
{
    if w.len() > 0 {
        lemma_words_le_len(w.skip(1));
    }
}

/// Encoding one more word appends its four bytes.
proof fn lemma_words_le_snoc(w: Seq<u32>, i: int)
    requires
        0 <= i < w.len(),
    ensures
        words_le(w.take(i + 1)) == words_le(w.take(i)) + u32_le(w[i]),
{
    assert(w.take(i + 1) =~= w.take(i) + seq![w[i]]);
    lemma_words_le_append(w.take(i), seq![w[i]]);
    let s1 = seq![w[i]];
    assert(s1.skip(1) =~= Seq::<u32>::empty());
    assert(words_le(s1.skip(1)) =~= Seq::<u8>::empty());
    assert(words_le(s1) =~= u32_le(w[i]));
}

/// Decoding the four bytes a word encoded to gives the word back.
proof fn lemma_read_u32_at(b: Seq<u8>, k: int, v: u32)
    requires
        0 <= k,
        k + 4 <= b.len(),
        b[k] == u32_le(v)[0],
        b[k + 1] == u32_le(v)[1],
        b[k + 2] == u32_le(v)[2],
        b[k + 3] == u32_le(v)[3],
    ensures
        read_u32(b, k) == v,
{
    assert(v % 0x100 + (v / 0x100) % 0x100 * 0x100 + (v / 0x10000) % 0x100 * 0x10000 + (v
        / 0x1000000) % 0x100 * 0x1000000 == v) by (bit_vector);
}

/// Decoding the eight bytes a doubleword encoded to gives it back.
proof fn lemma_read_u64_at(b: Seq<u8>, k: int, v: u64)
    requires
        0 <= k,
        k + 8 <= b.len(),
        b[k] == u64_le(v)[0],
        b[k + 1] == u64_le(v)[1],
        b[k + 2] == u64_le(v)[2],
        b[k + 3] == u64_le(v)[3],
        b[k + 4] == u64_le(v)[4],
        b[k + 5] == u64_le(v)[5],
        b[k + 6] == u64_le(v)[6],
        b[k + 7] == u64_le(v)[7],
    ensures
        read_u64(b, k) == v,
{
    assert(v % 0x100 + (v / 0x100) % 0x100 * 0x100 + (v / 0x10000) % 0x100 * 0x10000 + (v
        / 0x1000000) % 0x100 * 0x1000000 + (v / 0x100000000) % 0x100 * 0x100000000 + (v
        / 0x10000000000) % 0x100 * 0x10000000000 + (v / 0x1000000000000) % 0x100 * 0x1000000000000
        + (v / 0x100000000000000) % 0x100 * 0x100000000000000 == v) by (bit_vector);
}

/// A word read lies inside the left part of a concatenation.
proof fn lemma_read_u32_prefix(a: Seq<u8>, b: Seq<u8>, k: int)
    requires
        0 <= k,
        k + 4 <= a.len(),
    ensures
        read_u32(a + b, k) == read_u32(a, k),
{
}

/// A word read lies inside the right part of a concatenation.
proof fn lemma_read_u32_shift(a: Seq<u8>, b: Seq<u8>, k: int)
    requires
        0 <= k,
        k + 4 <= b.len(),
    ensures
        read_u32(a + b, a.len() + k) == read_u32(b, k),
{
}

/// A doubleword read lies inside the right part of a concatenation.
proof fn lemma_read_u64_shift(a: Seq<u8>, b: Seq<u8>, k: int)
    requires
        0 <= k,
        k + 8 <= b.len(),
    ensures
        read_u64(a + b, a.len() + k) == read_u64(b, k),
{
}

/// Reading word `i` of an encoded word run gives that word.
proof fn lemma_words_read(w: Seq<u32>, i: int)
    requires
        0 <= i < w.len(),
    ensures
        read_u32(words_le(w), 4 * i) == w[i],
    decreases i,
{
    lemma_words_le_len(w);
    lemma_words_le_len(w.skip(1));
    if i == 0 {
        lemma_read_u32_prefix(u32_le(w[0]), words_le(w.skip(1)), 0);
        lemma_read_u32_at(u32_le(w[0]), 0, w[0]);
    } else {
        lemma_words_read(w.skip(1), i - 1);
        lemma_read_u32_shift(u32_le(w[0]), words_le(w.skip(1)), 4 * (i - 1));
    }
}

impl SerialState {
    /// Serializes the instance into its checkpoint stream.
    pub fn save(&self) -> (out: Vec<u8>)
        requires
            self.regs.fifo_bounded(),
        ensures
            out@ == spec_save(*self),
    {
        let mut words: Vec<u32> = Vec::new();
        words.push(self.regs.flags);
        words.push(self.regs.line_control);
        words.push(self.regs.receive_status_error_clear);
        words.push(self.regs.control);
        words.push(self.regs.dmacr);
        words.push(self.regs.int_enabled);
        words.push(self.regs.int_level);
        let mut i: usize = 0;
        while i < 16
            invariant
                self.regs.fifo_bounded(),
                i <= 16,
                words@.len() == 7 + i,
                words@ == seq![
                    self.regs.flags,
                    self.regs.line_control,
                    self.regs.receive_status_error_clear,
                    self.regs.control,
                    self.regs.dmacr,
                    self.regs.int_enabled,
                    self.regs.int_level,
                ] + self.regs.read_fifo@.take(i as int),
            decreases 16 - i,
        {
            words.push(self.regs.read_fifo[i]);
            proof {
                assert(words@ =~= seq![
                    self.regs.flags,
                    self.regs.line_control,
                    self.regs.receive_status_error_clear,
                    self.regs.control,
                    self.regs.dmacr,
                    self.regs.int_enabled,
                    self.regs.int_level,
                ] + self.regs.read_fifo@.take(i + 1 as int));
            }
            i = i + 1;
        }
        words.push(self.regs.ilpr);
        words.push(self.regs.ibrd);
        words.push(self.regs.fbrd);
        words.push(self.regs.ifl);
        words.push(self.regs.read_pos);
        words.push(self.regs.read_count);
        words.push(self.regs.read_trigger);
        proof {
            assert(self.regs.read_fifo@.take(16) =~= self.regs.read_fifo@);
            assert(words@ =~= words_of_regs(self.regs));
        }
        let mut out: Vec<u8> = Vec::new();
        push_u32_le(&mut out, VMSTATE_VERSION);
        out.push(0);
        out.push(0);
        out.push(0);
        out.push(0);
        push_u32_le(&mut out, VMSTATE_VERSION);
        proof {
            assert(out@ =~= u32_le(VMSTATE_VERSION) + seq![0u8, 0u8, 0u8, 0u8] + u32_le(
                VMSTATE_VERSION,
            ));
        }
        let ghost head = out@;
        let mut j: usize = 0;
        while j < words.len()
            invariant
                j <= words@.len(),
                words@ == words_of_regs(self.regs),
                out@ == head + words_le(words@.take(j as int)),
            decreases words@.len() - j,
        {
            proof {
                lemma_words_le_snoc(words@, j as int);
            }
            push_u32_le(&mut out, words[j]);
            j = j + 1;
        }
        proof {
            assert(words@.take(words@.len() as int) =~= words@);
        }
        if self.migrate_clock {
            out.push(1);
            push_u32_le(&mut out, CLOCK_SECTION_VERSION);
            push_u64_le(&mut out, self.clock_hz);
        } else {
            out.push(0);
        }
        proof {
            assert(out@ =~= spec_save(*self));
        }
        out
    }

    /// The post-restore reconciliation hook, run once after all fields of
    /// a stream are in place: it rejects a FIFO occupancy or head index
    /// out of bounds, and recomputes the derived `flags` register, which
    /// the stream never supplies verbatim.
    pub fn post_load(&mut self, _version_id: u32) -> (r: Result<(), RestoreError>)
        requires
            old(self).regs.read_fifo@.len() == FIFO_CAPACITY,
        ensures
            final(self).migrate_clock == old(self).migrate_clock,
            final(self).clock_hz == old(self).clock_hz,
            (old(self).regs.read_count > FIFO_CAPACITY || old(self).regs.read_pos
                >= FIFO_CAPACITY) ==> {
                &&& r == Err::<(), RestoreError>(RestoreError::InvalidFifoState)
                &&& *final(self) == *old(self)
            },
            (old(self).regs.read_count <= FIFO_CAPACITY && old(self).regs.read_pos
                < FIFO_CAPACITY) ==> {
                &&& r == Ok::<(), RestoreError>(())
                &&& final(self).regs == (SerialRegisters {
                    flags: spec_flags(
                        old(self).regs.read_count,
                        old(self).regs.line_control,
                        old(self).regs.control,
                    ),
                    ..old(self).regs
                })
                &&& final(self).regs.wf()
            },
    {
        if self.regs.read_count > FIFO_CAPACITY || self.regs.read_pos >= FIFO_CAPACITY {
            return Err(RestoreError::InvalidFifoState);
        }
        self.regs.recompute_flags();
        Ok(())
    }

    /// Restores the instance from a checkpoint stream.  On any rejection
    /// the instance keeps its prior state unchanged; on success the
    /// register file holds exactly the restored fields with `flags`
    /// recomputed, and the clock frequency is taken from the subsection
    /// when it was present.
    pub fn restore(&mut self, data: &Vec<u8>) -> (r: Result<(), RestoreError>)
        requires
            old(self).regs.fifo_bounded(),
        ensures
            final(self).migrate_clock == old(self).migrate_clock,
            final(self).regs.fifo_bounded(),
            match spec_restore(data@, old(self).migrate_clock) {
                Err(e) => {
                    &&& r == Err::<(), RestoreError>(e)
                    &&& *final(self) == *old(self)
                },
                Ok(parsed) => {
                    &&& r == Ok::<(), RestoreError>(())
                    &&& regs_model(final(self).regs) == parsed.0
                    &&& final(self).regs.wf()
                    &&& final(self).clock_hz == (match parsed.1 {
                        Some(c) => c,
                        None => old(self).clock_hz,
                    })
                },
            },
    {
        let n = data.len();
        if n < 4 {
            return Err(RestoreError::TooShort);
        }
        let top_version = get_u32(data, 0);
        if top_version < VMSTATE_MINIMUM_VERSION || top_version > VMSTATE_VERSION {
            return Err(RestoreError::UnsupportedVersion);
        }
        if n < 12 {
            return Err(RestoreError::TooShort);
        }
        let regs_version = get_u32(data, 8);
        if regs_version < VMSTATE_MINIMUM_VERSION || regs_version > VMSTATE_VERSION {
            return Err(RestoreError::UnsupportedVersion);
        }
        if n < 133 {
            return Err(RestoreError::TooShort);
        }
        let present = data[132];
        if present != 0 && present != 1 {
            return Err(RestoreError::SubsectionMismatch);
        }
        if (present == 1) != self.migrate_clock {
            return Err(RestoreError::SubsectionMismatch);
        }
        let mut new_clock: Option<u64> = None;
        if present == 1 {
            if n < 145 {
                return Err(RestoreError::TooShort);
            }
            let clock_version = get_u32(data, 133);
            if clock_version != CLOCK_SECTION_VERSION {
                return Err(RestoreError::UnsupportedVersion);
            }
            if n != 145 {
                return Err(RestoreError::TrailingData);
            }
            new_clock = Some(get_u64(data, 137));
        } else {
            if n != 133 {
                return Err(RestoreError::TrailingData);
            }
        }
        let read_pos = get_u32(data, 120);
        let read_count = get_u32(data, 124);
        if read_count > FIFO_CAPACITY || read_pos >= FIFO_CAPACITY {
            return Err(RestoreError::InvalidFifoState);
        }
        let ghost w = Seq::new(30, |i: int| read_u32(data@, 12 + 4 * i));
        self.regs.line_control = get_u32(data, 16);
        self.regs.receive_status_error_clear = get_u32(data, 20);
        self.regs.control = get_u32(data, 24);
        self.regs.dmacr = get_u32(data, 28);
        self.regs.int_enabled = get_u32(data, 32);
        self.regs.int_level = get_u32(data, 36);
        let mut fifo: Vec<u32> = Vec::new();
        let mut i: usize = 0;
        while i < 16
            invariant
                i <= 16,
                data@.len() >= 133,
                fifo@ == w.subrange(7, 7 + i as int),
                w == Seq::new(30, |k: int| read_u32(data@, 12 + 4 * k)),
            decreases 16 - i,
        {
            fifo.push(get_u32(data, 40 + 4 * i));
            proof {
                assert(fifo@ =~= w.subrange(7, 7 + (i + 1 as int)));
            }
            i = i + 1;
        }
        self.regs.read_fifo = fifo;
        self.regs.ilpr = get_u32(data, 104);
        self.regs.ibrd = get_u32(data, 108);
        self.regs.fbrd = get_u32(data, 112);
        self.regs.ifl = get_u32(data, 116);
        self.regs.read_pos = read_pos;
        self.regs.read_count = read_count;
        self.regs.read_trigger = get_u32(data, 128);
        if let Some(c) = new_clock {
            self.clock_hz = c;
        }
        let reconciled = self.post_load(top_version);
        match reconciled {
            Ok(()) => {
                proof {
                    let parsed = spec_restore(data@, old(self).migrate_clock)->Ok_0;
                    assert(regs_model(self.regs) =~= parsed.0);
                }
                Ok(())
            },
            Err(e) => Err(e),
        }
    }
}

/// Saving an instance in any well-formed state and restoring the stream
/// into an instance with the same migrate-clock predicate succeeds and
/// yields exactly the saved register file — the recomputed `flags`
/// included, since well-formedness already means `flags` is fresh — and,
/// when the clock subsection travels, the saved clock frequency.
pub proof fn lemma_save_restore_roundtrip(s: SerialState)
    requires
        s.regs.wf(),
    ensures
        spec_restore(spec_save(s), s.migrate_clock) == Ok::<
            (RegsModel, Option<u64>),
            RestoreError,
        >(
            (
                regs_model(s.regs),
                if s.migrate_clock {
                    Some(s.clock_hz)
                } else {
                    None
                },
            ),
        ),
{
    let b = spec_save(s);
    let w = words_of_regs(s.regs);
    let head = u32_le(VMSTATE_VERSION) + seq![0u8, 0u8, 0u8, 0u8] + u32_le(VMSTATE_VERSION);
    let body = head + words_le(w);
    let tail = clock_section(s);
    lemma_words_le_len(w);
    assert(w.len() == 30);
    assert(b =~= body + tail);
    assert(body.len() == 132);
    // The two version words of the header.
    lemma_read_u32_prefix(body, tail, 0);
    lemma_read_u32_prefix(head, words_le(w), 0);
    lemma_read_u32_prefix(u32_le(VMSTATE_VERSION) + seq![0u8, 0u8, 0u8, 0u8], u32_le(
        VMSTATE_VERSION,
    ), 0);
    lemma_read_u32_prefix(u32_le(VMSTATE_VERSION), seq![0u8, 0u8, 0u8, 0u8], 0);
    lemma_read_u32_at(u32_le(VMSTATE_VERSION), 0, VMSTATE_VERSION);
    assert(read_u32(b, 0) == VMSTATE_VERSION);
    lemma_read_u32_prefix(body, tail, 8);
    lemma_read_u32_prefix(head, words_le(w), 8);
    lemma_read_u32_shift(u32_le(VMSTATE_VERSION) + seq![0u8, 0u8, 0u8, 0u8], u32_le(
        VMSTATE_VERSION,
    ), 0);
    lemma_read_u32_at(u32_le(VMSTATE_VERSION), 0, VMSTATE_VERSION);
    assert(read_u32(b, 8) == VMSTATE_VERSION);
    // The subsection marker and the stream length.
    assert(b[132] == tail[0]);
    if s.migrate_clock {
        assert(tail[0] == 1u8);
        assert(b.len() == 145);
        // The subsection's version word and clock value.
        lemma_read_u32_shift(body, tail, 1);
        lemma_read_u32_prefix(seq![1u8] + u32_le(CLOCK_SECTION_VERSION), u64_le(s.clock_hz), 1);
        lemma_read_u32_shift(seq![1u8], u32_le(CLOCK_SECTION_VERSION), 0);
        lemma_read_u32_at(u32_le(CLOCK_SECTION_VERSION), 0, CLOCK_SECTION_VERSION);
        assert(read_u32(b, 133) == CLOCK_SECTION_VERSION);
        lemma_read_u64_shift(body, tail, 5);
        lemma_read_u64_shift(seq![1u8] + u32_le(CLOCK_SECTION_VERSION), u64_le(s.clock_hz), 0);
        lemma_read_u64_at(u64_le(s.clock_hz), 0, s.clock_hz);
        assert(read_u64(b, 137) == s.clock_hz);
    } else {
        assert(tail[0] == 0u8);
        assert(b.len() == 133);
    }
    // Every word of the register record reads back as itself.
    let rw = Seq::new(30, |i: int| read_u32(b, 12 + 4 * i));
    assert forall|i: int| 0 <= i < 30 implies rw[i] == w[i] by {
        lemma_words_read(w, i);
        lemma_read_u32_shift(head, words_le(w), 4 * i);
        lemma_read_u32_prefix(body, tail, 12 + 4 * i);
    }
    assert(rw =~= w);
    assert(w[27] == s.regs.read_pos && w[28] == s.regs.read_count);
    let parsed = spec_restore(b, s.migrate_clock);
    assert(parsed is Ok);
    assert(rw.subrange(7, 23) =~= s.regs.read_fifo@);
    assert(parsed->Ok_0.0 =~= regs_model(s.regs));
}

} // verus!
