//! The bookkeeping of the error stack behind [`crate::context::ErrorSink`]: which
//! slot a recorded error goes to, and which slot a check reads.
use vstd::prelude::*;

verus! {

/// The number of errors the stack holds; later ones are dropped.
pub const ERR_STACK_SIZE: usize = 16;

/// The height of the stack that a counter value stands for: the counter keeps
/// counting past the capacity, the stack does not.
pub open spec fn stack_height(counter: u32) -> int {
    if counter < ERR_STACK_SIZE {
        counter as int
    } else {
        ERR_STACK_SIZE as int
    }
}

/// The slot a record writes to, given the counter value it incremented: that
/// value itself while it is below the capacity, no slot after.
pub open spec fn spec_record_slot(prev: u32) -> Option<usize> {
    if prev < ERR_STACK_SIZE {
        Some(prev as usize)
    } else {
        None
    }
}

/// The counter value a check leaves behind: one error fewer than the stack
/// held, or no change where the stack is empty.
pub open spec fn spec_pop_counter(old: u32) -> Option<u32> {
    if old > 0 {
        Some((stack_height(old) - 1) as u32)
    } else {
        None
    }
}

/// The slot a check reads, given the counter value before it: the top of the
/// stack, which holds the most recent error that fitted.
pub open spec fn spec_check_slot(old: u32) -> usize {
    (stack_height(old) - 1) as usize
}

/// The counter value after a record: one more, wrapping around at `u32::MAX`
/// as an atomic increment does.
pub open spec fn counter_after_record(c: u32) -> u32 {
    if c == u32::MAX {
        0
    } else {
        (c + 1) as u32
    }
}

/// The stored codes after recording `code` at counter value `c`: the code goes
/// into the slot [`spec_record_slot`] names, if any.
pub open spec fn slots_after_record(slots: Seq<u32>, c: u32, code: u32) -> Seq<u32> {
    match spec_record_slot(c) {
        Some(i) => slots.update(i as int, code),
        None => slots,
    }
}

/// The errors pending on a stack with these slots and this counter, oldest first.
pub open spec fn pending_of(slots: Seq<u32>, c: u32) -> Seq<u32> {
    slots.take(stack_height(c))
}

/// A stack is well formed where it has its capacity of slots and every slot
/// above the pending errors is clear, as a fresh stack's are.
pub open spec fn stack_wf(slots: Seq<u32>, c: u32) -> bool {
    &&& slots.len() == ERR_STACK_SIZE
    &&& forall|i: int| stack_height(c) <= i < ERR_STACK_SIZE ==> slots[i] == 0
}

/// The slot a record writes to, given the counter value its increment returned.
pub fn record_slot(prev: u32) -> (r: Option<usize>)
    ensures
        r == spec_record_slot(prev),
{
    if prev < ERR_STACK_SIZE as u32 {
        Some(prev as usize)
    } else {
        None
    }
}

/// The step that a check applies to the counter: `None` leaves an empty stack
/// alone.
pub fn pop_counter(old: u32) -> (r: Option<u32>)
    ensures
        r == spec_pop_counter(old),
{
    if old > 0 {
        let height: u32 = if old < ERR_STACK_SIZE as u32 {
            old
        } else {
            ERR_STACK_SIZE as u32
        };
        Some(height - 1)
    } else {
        None
    }
}

/// The slot a check reads, given the counter value it popped.
pub fn check_slot(old: u32) -> (r: usize)
    requires
        old > 0,
    ensures
        r == spec_check_slot(old),
        r < ERR_STACK_SIZE,
{
    if old < ERR_STACK_SIZE as u32 {
        (old - 1) as usize
    } else {
        ERR_STACK_SIZE - 1
    }
}

/// A check reads the slot that the latest record wrote, and takes the counter
/// back to where it was before that record, as long as the record fitted.
pub proof fn lemma_check_reads_latest_record(prev: u32)
    requires
        prev < ERR_STACK_SIZE,
    ensures
        spec_record_slot(prev) == Some(spec_check_slot((prev + 1) as u32)),
        spec_pop_counter((prev + 1) as u32) == Some(prev),
{
}

/// Each check takes exactly one error off a non-empty stack, and leaves an empty
/// stack as it is.
pub proof fn lemma_check_pops_one(old: u32)
    ensures
        old > 0 ==> spec_pop_counter(old) == Some((stack_height(old) - 1) as u32),
        old > 0 ==> stack_height(spec_pop_counter(old).unwrap()) == stack_height(old) - 1,
        old == 0 ==> spec_pop_counter(old) is None,
{
}

/// Records past the capacity are dropped: they write no slot, and the stack
/// stays at its capacity.
pub proof fn lemma_overflow_dropped(prev: u32)
    requires
        prev >= ERR_STACK_SIZE,
    ensures
        spec_record_slot(prev) is None,
        stack_height(prev) == ERR_STACK_SIZE,
        prev < u32::MAX ==> stack_height((prev + 1) as u32) == ERR_STACK_SIZE,
{
}

/// Every slot a record or a check names lies inside the stack.
pub proof fn lemma_slots_in_bounds(c: u32)
    ensures
        spec_record_slot(c) matches Some(i) ==> i < ERR_STACK_SIZE,
        c > 0 ==> spec_check_slot(c) < ERR_STACK_SIZE,
{
}

} // verus!
