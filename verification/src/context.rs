//! A stack of driver errors, for places that cannot return one (such as drops).
use crate::driver::{driver_error_code, error_code_of};
use crate::error_stack::{
    check_slot, counter_after_record, pending_of, pop_counter, record_slot, slots_after_record,
    spec_check_slot, spec_pop_counter, stack_height, stack_wf, ERR_STACK_SIZE,
};
use cudarc::driver::DriverError;
use vstd::prelude::*;

verus! {

broadcast use vstd::array::group_array_axioms;

/// Structure to capture errors in environments in which error capturing is not
/// possible; for example in manual drops.
///
/// Up to [`ERR_STACK_SIZE`] error codes are kept in `err_state`; `err_stack`
/// counts the errors recorded and not yet checked, and keeps counting past the
/// capacity.
#[derive(Debug)]
pub struct ErrorSink {
    err_state: [u32; ERR_STACK_SIZE],
    err_stack: u32,
}

impl ErrorSink {
    /// The error counter: errors recorded and not yet checked, counting past
    /// the capacity.
    pub closed spec fn counter(self) -> u32 {
        self.err_stack
    }

    /// The stored error codes, one per slot.
    pub closed spec fn slots(self) -> Seq<u32> {
        self.err_state@
    }

    /// The errors pending, oldest first: the slots below the stack's height.
    pub open spec fn pending(self) -> Seq<u32> {
        pending_of(self.slots(), self.counter())
    }

    /// Every slot above the pending errors is clear.
    pub open spec fn wf(self) -> bool {
        stack_wf(self.slots(), self.counter())
    }

    /// `after` is this sink once `code` has been recorded.
    pub open spec fn records(self, code: u32, after: Self) -> bool {
        &&& after.counter() == counter_after_record(self.counter())
        &&& after.slots() == slots_after_record(self.slots(), self.counter(), code)
    }

    /// `after` is this sink once a check has returned `r`: with nothing
    /// counted, `Ok(())` and no change; otherwise the code in the top slot, the
    /// counter popped and that slot cleared.
    pub open spec fn checks(self, r: Result<(), u32>, after: Self) -> bool {
        if self.counter() == 0 {
            r == Ok::<(), u32>(()) && after == self
        } else {
            &&& r == Err::<(), u32>(self.slots()[spec_check_slot(self.counter()) as int])
            &&& after.counter() == spec_pop_counter(self.counter()).unwrap()
            &&& after.slots() == self.slots().update(spec_check_slot(self.counter()) as int, 0)
        }
    }

    /// Two sinks are equal exactly when their counters and stored codes are.
    pub proof fn lemma_state_determines(a: Self, b: Self)
        ensures
            (a == b) <==> (a.counter() == b.counter() && a.slots() == b.slots()),
    {
        if a.counter() == b.counter() && a.slots() == b.slots() {
            assert(a.err_state =~= b.err_state);
        }
    }

    /// Every sink has exactly its capacity of slots.
    pub proof fn lemma_slots_len(s: Self)
        ensures
            s.slots().len() == ERR_STACK_SIZE,
    {
    }

    /// An empty error stack.
    pub fn new() -> (r: Self)
        ensures
            r.counter() == 0,
            r.slots().len() == ERR_STACK_SIZE,
            r.slots() == Seq::new(ERR_STACK_SIZE as nat, |i: int| 0u32),
            r.wf(),
            r.pending() == Seq::<u32>::empty(),
    {
        let r = ErrorSink { err_state: [0u32; ERR_STACK_SIZE], err_stack: 0 };
        assert(r.slots() =~= Seq::new(ERR_STACK_SIZE as nat, |i: int| 0u32));
        assert(r.pending() =~= Seq::<u32>::empty());
        r
    }

    /// Whether the counter has reached the capacity, so that later records are
    /// being dropped.
    pub fn overflowed(&self) -> (r: bool)
        ensures
            r == (self.counter() >= ERR_STACK_SIZE),
    {
        self.err_stack >= ERR_STACK_SIZE as u32
    }

    /// Pushes the error code `code`: the counter is incremented, and the code is
    /// stored in the slot the increment names, if the stack has room.
    pub fn record_code(&mut self, code: u32)
        ensures
            old(self).slots().len() == ERR_STACK_SIZE,
            final(self).slots().len() == ERR_STACK_SIZE,
            old(self).records(code, *final(self)),
            old(self).wf() && old(self).counter() < u32::MAX ==> final(self).wf(),
            old(self).wf() && old(self).counter() < u32::MAX ==> final(self).pending() == (
                if old(self).counter() < ERR_STACK_SIZE {
                    old(self).pending().push(code)
                } else {
                    old(self).pending()
                }
            ),
    {
        let prev = self.err_stack;
        self.err_stack = if prev == u32::MAX {
            0
        } else {
            prev + 1
        };
        match record_slot(prev) {
            Some(idx) => {
                self.err_state[idx] = code;
            },
            None => {},
        }
        proof {
            if old(self).wf() && old(self).counter() < u32::MAX {
                lemma_record_pushes(*old(self), code, *self);
            }
        }
    }

    /// Records the error of `result`, if it holds one; an `Ok` is ignored.
    pub fn record_err<T>(&mut self, result: Result<T, DriverError>)
        ensures
            old(self).slots().len() == ERR_STACK_SIZE,
            final(self).slots().len() == ERR_STACK_SIZE,
            match result {
                Ok(_) => *final(self) == *old(self),
                Err(e) => old(self).records(error_code_of(e), *final(self)),
            },
    {
        match result {
            Err(err) => {
                let code = driver_error_code(&err);
                self.record_code(code);
            },
            Ok(_) => {},
        }
    }

    /// Check the error stack for any errors.
    /// The error stack is traversed last-in-first-out, so the most recent error
    /// is returned first. Each call of this method can take off one error in the
    /// stack; the slot it read is cleared. The error comes back as the driver's
    /// error code.
    pub fn check_err(&mut self) -> (r: Result<(), u32>)
        ensures
            old(self).slots().len() == ERR_STACK_SIZE,
            final(self).slots().len() == ERR_STACK_SIZE,
            old(self).checks(r, *final(self)),
            old(self).wf() ==> {
                &&& final(self).wf()
                &&& (r is Ok <==> old(self).pending().len() == 0)
                &&& old(self).pending().len() > 0 ==> r == Err::<(), u32>(
                    old(self).pending().last(),
                ) && final(self).pending() == old(self).pending().drop_last()
            },
    {
        let r = match pop_counter(self.err_stack) {
            Some(next) => {
                let idx = check_slot(self.err_stack);
                let code = self.err_state[idx];
                self.err_state[idx] = 0;
                self.err_stack = next;
                Err(code)
            },
            None => Ok(()),
        };
        proof {
            if old(self).counter() > 0 {
                assert(self.slots() =~= old(self).slots().update(
                    spec_check_slot(old(self).counter()) as int,
                    0,
                ));
            }
            if old(self).wf() {
                lemma_check_pops(*old(self), r, *self);
            }
        }
        r
    }
}

/// A record pushes its code onto a well-formed stack while there is room, and
/// is dropped once the stack is full; the stack stays well formed (short of the
/// counter wrapping around).
pub proof fn lemma_record_pushes(s: ErrorSink, code: u32, t: ErrorSink)
    requires
        s.wf(),
        s.counter() < u32::MAX,
        s.records(code, t),
    ensures
        t.wf(),
        t.pending() == (if s.counter() < ERR_STACK_SIZE {
            s.pending().push(code)
        } else {
            s.pending()
        }),
{
    if s.counter() < ERR_STACK_SIZE {
        assert(t.pending() =~= s.pending().push(code));
    } else {
        assert(t.pending() =~= s.pending());
    }
}

/// A check of a well-formed stack returns `Ok(())` exactly when nothing is
/// pending; otherwise it returns the most recent pending error and takes it off.
/// The stack stays well formed.
pub proof fn lemma_check_pops(s: ErrorSink, r: Result<(), u32>, t: ErrorSink)
    requires
        s.wf(),
        s.checks(r, t),
    ensures
        t.wf(),
        r is Ok <==> s.pending().len() == 0,
        s.pending().len() > 0 ==> r == Err::<(), u32>(s.pending().last()) && t.pending()
            == s.pending().drop_last(),
{
    if s.counter() > 0 {
        assert(stack_height(t.counter()) == stack_height(s.counter()) - 1);
        assert(t.pending() =~= s.pending().drop_last());
    }
}

/// A record followed by a check on a well-formed stack with room gives the
/// recorded error back and leaves the sink as it was. Every state of a run from
/// a fresh sink is well formed (see [`lemma_run_follows_stack`]); a stack whose
/// counter has wrapped around may hold a stale code in the slot written, which
/// the check then clears.
pub proof fn lemma_record_then_check(
    s: ErrorSink,
    code: u32,
    t: ErrorSink,
    r: Result<(), u32>,
    u: ErrorSink,
)
    requires
        s.wf(),
        s.counter() < ERR_STACK_SIZE,
        s.records(code, t),
        t.checks(r, u),
    ensures
        r == Err::<(), u32>(code),
        u == s,
{
    assert(u.slots() =~= s.slots());
    ErrorSink::lemma_state_determines(u, s);
}

/// A fresh sink reports nothing.
pub proof fn lemma_fresh_sink_empty(s: ErrorSink, r: Result<(), u32>, t: ErrorSink)
    requires
        s.counter() == 0,
        s.checks(r, t),
    ensures
        r == Ok::<(), u32>(()),
        t == s,
{
}

/// The pending stack that a sequence of operations builds from an empty stack:
/// `Some(code)` records `code`, pushed while the stack has room and dropped once
/// it is full; `None` checks, taking the most recent error off, if any.
pub open spec fn model_stack(ops: Seq<Option<u32>>) -> Seq<u32>
    decreases ops.len(),
{
    if ops.len() == 0 {
        Seq::empty()
    } else {
        let s = model_stack(ops.drop_last());
        match ops.last() {
            Some(code) => if s.len() < ERR_STACK_SIZE {
                s.push(code)
            } else {
                s
            },
            None => if s.len() > 0 {
                s.drop_last()
            } else {
                s
            },
        }
    }
}

/// What a check on the pending stack `pending` returns: its most recent error,
/// or `Ok(())` where it is empty.
pub open spec fn model_check(pending: Seq<u32>) -> Result<(), u32> {
    if pending.len() == 0 {
        Ok(())
    } else {
        Err(pending.last())
    }
}

/// `states` is a run of a sink: each state follows the one before it by the
/// operation at that index (`Some(code)`: a record of `code`; `None`: a check
/// that returned the result at that index).
pub open spec fn is_run(
    states: Seq<ErrorSink>,
    ops: Seq<Option<u32>>,
    results: Seq<Result<(), u32>>,
) -> bool {
    &&& states.len() == ops.len() + 1
    &&& results.len() == ops.len()
    &&& forall|i: int|
        0 <= i < ops.len() ==> match #[trigger] ops[i] {
            Some(code) => states[i].records(code, states[i + 1]),
            None => states[i].checks(results[i], states[i + 1]),
        }
}

proof fn lemma_run_prefix(
    states: Seq<ErrorSink>,
    ops: Seq<Option<u32>>,
    results: Seq<Result<(), u32>>,
    n: int,
)
    requires
        is_run(states, ops, results),
        states[0].counter() == 0,
        states[0].wf(),
        ops.len() < u32::MAX,
        0 <= n <= ops.len(),
    ensures
        states[n].wf(),
        states[n].counter() <= n,
        states[n].pending() == model_stack(ops.take(n)),
    decreases n,
{
    if n == 0 {
        assert(states[0].pending() =~= Seq::<u32>::empty());
        assert(ops.take(0) =~= Seq::<Option<u32>>::empty());
    } else {
        let i = n - 1;
        lemma_run_prefix(states, ops, results, i);
        assert(ops.take(n).drop_last() =~= ops.take(i));
        assert(ops.take(n).last() == ops[i]);
        let s = states[i];
        let t = states[n];
        assert(s.pending().len() == stack_height(s.counter()));
        match ops[i] {
            Some(code) => {
                assert(s.records(code, t));
                lemma_record_pushes(s, code, t);
            },
            None => {
                assert(s.checks(results[i], t));
                lemma_check_pops(s, results[i], t);
            },
        }
    }
}

/// Last in, first out, over any run of a fresh sink: after any sequence of
/// records and checks, the sink's pending errors are the stack those operations
/// build, and each check returns the most recent error on that stack, or
/// `Ok(())` where it is empty. (Runs shorter than the counter's wrap-around.)
pub proof fn lemma_run_follows_stack(
    states: Seq<ErrorSink>,
    ops: Seq<Option<u32>>,
    results: Seq<Result<(), u32>>,
)
    requires
        is_run(states, ops, results),
        states[0].counter() == 0,
        states[0].wf(),
        ops.len() < u32::MAX,
    ensures
        forall|n: int|
            0 <= n <= ops.len() ==> #[trigger] states[n].pending() == model_stack(ops.take(n))
                && states[n].wf(),
        forall|i: int|
            0 <= i < ops.len() && ops[i] is None ==> #[trigger] results[i] == model_check(
                model_stack(ops.take(i)),
            ),
{
    assert forall|n: int| 0 <= n <= ops.len() implies #[trigger] states[n].pending()
        == model_stack(ops.take(n)) && states[n].wf() by {
        lemma_run_prefix(states, ops, results, n);
    }
    assert forall|i: int| 0 <= i < ops.len() && ops[i] is None implies #[trigger] results[i]
        == model_check(model_stack(ops.take(i))) by {
        lemma_run_prefix(states, ops, results, i);
        let s = states[i];
        assert(s.checks(results[i], states[i + 1]));
        lemma_check_pops(s, results[i], states[i + 1]);
    }
}

/// Every error on the stack a sequence of operations builds was recorded by one
/// of those operations: a check only ever reports a code that was recorded.
pub proof fn lemma_model_from_records(ops: Seq<Option<u32>>)
    ensures
        forall|j: int|
            #![trigger model_stack(ops)[j]]
            0 <= j < model_stack(ops).len() ==> exists|i: int|
                0 <= i < ops.len() && #[trigger] ops[i] == Some(model_stack(ops)[j]),
    decreases ops.len(),
{
    if ops.len() > 0 {
        let prev = ops.drop_last();
        lemma_model_from_records(prev);
        let s = model_stack(prev);
        assert forall|j: int|
            #![trigger model_stack(ops)[j]]
            0 <= j < model_stack(ops).len() implies exists|i: int|
            0 <= i < ops.len() && #[trigger] ops[i] == Some(model_stack(ops)[j]) by {
            if j < s.len() && model_stack(ops)[j] == s[j] {
                let i = choose|i: int| 0 <= i < prev.len() && #[trigger] prev[i] == Some(s[j]);
                assert(ops[i] == prev[i]);
            } else {
                assert(ops[ops.len() - 1] == Some(model_stack(ops)[j]));
            }
        }
    }
}

} // verus!
