//! Laws of the receive FIFO over whole operation sequences.
//!
//! The step function here mirrors the contracts of
//! [`SerialRegisters::push`](crate::registers::SerialRegisters::push) and
//! [`SerialRegisters::pop`](crate::registers::SerialRegisters::pop) on the
//! queue abstraction `fifo_view`: a push into a full queue drops the
//! oldest entry, a pop on an empty queue changes nothing.

use vstd::prelude::*;
use crate::registers::FIFO_CAPACITY;

verus! {

/// One FIFO operation: appending an entry or removing the oldest one.
pub enum FifoOp {
    /// Append this entry.
    Push(u32),
    /// Remove the oldest entry.
    Pop,
}

/// The queue after one operation, exactly as the exec contracts state it.
pub open spec fn apply_op(q: Seq<u32>, op: FifoOp) -> Seq<u32> {
    match op {
        FifoOp::Push(v) => if q.len() < FIFO_CAPACITY {
            q.push(v)
        } else {
            q.skip(1).push(v)
        },
        FifoOp::Pop => if q.len() > 0 {
            q.skip(1)
        } else {
            q
        },
    }
}

/// The queue after a whole sequence of operations.
pub open spec fn apply_ops(q: Seq<u32>, ops: Seq<FifoOp>) -> Seq<u32>
    decreases ops.len(),
{
    if ops.len() == 0 {
        q
    } else {
        apply_ops(apply_op(q, ops[0]), ops.skip(1))
    }
}

/// How many of the operations are pushes.
pub open spec fn count_pushes(ops: Seq<FifoOp>) -> nat
    decreases ops.len(),
{
    if ops.len() == 0 {
        0nat
    } else {
        (if ops[0] is Push {
            1nat
        } else {
            0nat
        }) + count_pushes(ops.skip(1))
    }
}

/// How many of the operations are pops.
pub open spec fn count_pops(ops: Seq<FifoOp>) -> nat
    decreases ops.len(),
{
    if ops.len() == 0 {
        0nat
    } else {
        (if ops[0] is Pop {
            1nat
        } else {
            0nat
        }) + count_pops(ops.skip(1))
    }
}

/// The pushed entries, in push order.
pub open spec fn pushed_values(ops: Seq<FifoOp>) -> Seq<u32>
    decreases ops.len(),
{
    if ops.len() == 0 {
        Seq::empty()
    } else {
        match ops[0] {
            FifoOp::Push(v) => seq![v] + pushed_values(ops.skip(1)),
            FifoOp::Pop => pushed_values(ops.skip(1)),
        }
    }
}

/// Every pop in the sequence finds a non-empty queue, starting from a
/// queue of the given length.
pub open spec fn pops_in_order(len: int, ops: Seq<FifoOp>) -> bool
    decreases ops.len(),
{
    if ops.len() == 0 {
        true
    } else {
        match ops[0] {
            FifoOp::Push(_) => pops_in_order(len + 1, ops.skip(1)),
            FifoOp::Pop => len > 0 && pops_in_order(len - 1, ops.skip(1)),
        }
    }
}

/// Every operation split into one push and one pop; a sequence of length
/// at most the capacity therefore holds at most capacity pushes.
pub proof fn lemma_counts_bounded(ops: Seq<FifoOp>)
    ensures
        count_pushes(ops) + count_pops(ops) == ops.len(),
    decreases ops.len(),
{
    if ops.len() > 0 {
        lemma_counts_bounded(ops.skip(1));
    }
}

/// Running a sequence whose pushes fit beside the starting queue and
/// whose pops all find entries leaves exactly the not-yet-popped suffix
/// of the starting queue followed by the pushed values: the first pops
/// take the oldest entries, and nothing is dropped or reordered.
pub proof fn lemma_apply_ops_general(q: Seq<u32>, ops: Seq<FifoOp>)
    requires
        q.len() + count_pushes(ops) <= FIFO_CAPACITY,
        pops_in_order(q.len() as int, ops),
    ensures
        apply_ops(q, ops) == (q + pushed_values(ops)).skip(count_pops(ops) as int),
        count_pops(ops) <= q.len() + count_pushes(ops),
    decreases ops.len(),
{
    if ops.len() == 0 {
        assert(apply_ops(q, ops) =~= (q + pushed_values(ops)).skip(0));
    } else {
        match ops[0] {
            FifoOp::Push(v) => {
                let q2 = q.push(v);
                assert(q.len() < FIFO_CAPACITY);
                lemma_apply_ops_general(q2, ops.skip(1));
                assert(q2 + pushed_values(ops.skip(1)) =~= q + pushed_values(ops));
            },
            FifoOp::Pop => {
                let q2 = q.skip(1);
                lemma_apply_ops_general(q2, ops.skip(1));
                lemma_pushed_len(ops);
                lemma_pushed_len(ops.skip(1));
                let s = q + pushed_values(ops);
                let k = count_pops(ops.skip(1)) as int;
                assert(q2 + pushed_values(ops.skip(1)) =~= s.skip(1));
                assert(k <= s.skip(1).len());
                assert(s.skip(1).skip(k) =~= s.skip(1 + k));
            },
        }
    }
}

/// For any sequence of pushes and pops of length at most the FIFO
/// capacity, starting from an empty FIFO, in which no pop hits an empty
/// queue: the occupancy afterwards is the number of pushes minus the
/// number of pops, and the remaining entries are exactly the pushed
/// values with the first `pops` of them removed — entries leave in push
/// order.
pub proof fn lemma_fifo_sequence(ops: Seq<FifoOp>)
    requires
        ops.len() <= FIFO_CAPACITY,
        pops_in_order(0, ops),
    ensures
        apply_ops(Seq::empty(), ops).len() == count_pushes(ops) - count_pops(ops),
        apply_ops(Seq::empty(), ops) == pushed_values(ops).skip(count_pops(ops) as int),
{
    let q0 = Seq::<u32>::empty();
    lemma_counts_bounded(ops);
    lemma_apply_ops_general(q0, ops);
    assert(q0 + pushed_values(ops) =~= pushed_values(ops));
    lemma_pushed_len(ops);
}

/// There are as many pushed values as pushes.
pub proof fn lemma_pushed_len(ops: Seq<FifoOp>)
    ensures
        pushed_values(ops).len() == count_pushes(ops),
    decreases ops.len(),
{
    if ops.len() > 0 {
        lemma_pushed_len(ops.skip(1));
    }
}

/// The queue transitions that the register file's `push` and `pop`
/// contracts state are exactly the steps of `apply_op`, so the sequence
/// laws above speak about the executable FIFO.
pub proof fn lemma_step_matches_contracts(q: Seq<u32>, v: u32)
    requires
        q.len() <= FIFO_CAPACITY,
    ensures
        q.len() < FIFO_CAPACITY ==> apply_op(q, FifoOp::Push(v)) == q.push(v),
        q.len() == FIFO_CAPACITY ==> apply_op(q, FifoOp::Push(v)) == q.skip(1).push(v),
        q.len() > 0 ==> apply_op(q, FifoOp::Pop) == q.skip(1),
        q.len() == 0 ==> apply_op(q, FifoOp::Pop) == q,
{
}

/// Pushing into a FIFO never raises the occupancy beyond the capacity,
/// whatever the occupancy was: one more entry when there was room, an
/// unchanged full queue otherwise.
pub proof fn lemma_push_bounded(q: Seq<u32>, v: u32)
    requires
        q.len() <= FIFO_CAPACITY,
    ensures
        apply_op(q, FifoOp::Push(v)).len() <= FIFO_CAPACITY,
        q.len() < FIFO_CAPACITY ==> apply_op(q, FifoOp::Push(v)).len() == q.len() + 1,
        q.len() == FIFO_CAPACITY ==> apply_op(q, FifoOp::Push(v)).len() == FIFO_CAPACITY,
{
}

} // verus!
