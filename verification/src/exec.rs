//! The status convention of the load and protected-call paths.
//!
//! Parsing and executing chunks is the foreign runtime's work; what the
//! binding owns is the convention around it: every outcome maps to a
//! thread status, a failure leaves exactly its error message on the stack
//! for the host to retrieve, and a success leaves the loaded chunk.  The
//! functions here apply that convention to the model for every possible
//! outcome, so nothing about it depends on which outcome the runtime
//! happens to produce.

use vstd::prelude::*;

use crate::state::Function;
use crate::state::State;
use crate::types::ThreadStatus;
use crate::value::Value;

verus! {

/// What the runtime's chunk loader can report: a loaded chunk, a syntax
/// error with its message, or an out-of-memory failure with its message.
#[derive(Debug)]
pub enum LoadOutcome {
    Loaded(Function),
    Syntax(String),
    Memory(String),
}

/// What a protected call can fail with: the error kinds of the foreign
/// status convention that carry an error object.
#[derive(Clone, Copy, Debug, PartialEq, Eq, Structural)]
pub enum CallFailure {
    Runtime,
    Memory,
    Gc,
    MessageHandler,
}

/// The thread status that reports a protected-call failure kind.
pub open spec fn spec_failure_status(k: CallFailure) -> ThreadStatus {
    match k {
        CallFailure::Runtime => ThreadStatus::RuntimeError,
        CallFailure::Memory => ThreadStatus::MemoryError,
        CallFailure::Gc => ThreadStatus::GcError,
        CallFailure::MessageHandler => ThreadStatus::MessageHandlerError,
    }
}

impl State {
    /// Applies the load convention to a loader outcome: a loaded chunk is
    /// pushed and the status is normal; a failure pushes exactly its
    /// message string and returns the matching error status.  The status
    /// is an error if and only if the outcome was a failure, so a failed
    /// load always leaves its message retrievable on top of the stack.
    pub fn finish_load(&mut self, outcome: LoadOutcome) -> (st: ThreadStatus)
        requires
            old(self).wf(),
            old(self).top() < old(self).cap as int,
        ensures
            final(self).wf(),
            State::same_frame(*old(self), *final(self)),
            final(self).stack@.len() == old(self).stack@.len() + 1,
            final(self).stack@.drop_last() == old(self).stack@,
            (outcome matches LoadOutcome::Loaded(f) ==> st == ThreadStatus::Normal
                && final(self).stack@.last() == Value::Function(f.0)),
            (outcome matches LoadOutcome::Syntax(m) ==> st == ThreadStatus::SyntaxError
                && final(self).stack@.last() == Value::Str(m)),
            (outcome matches LoadOutcome::Memory(m) ==> st == ThreadStatus::MemoryError
                && final(self).stack@.last() == Value::Str(m)),
            !(st is Yield),
            (st is Normal <==> outcome is Loaded),
    {
        match outcome {
            LoadOutcome::Loaded(f) => {
                self.push_fn(f);
                proof {
                    assert(self.stack@.drop_last() =~= old(self).stack@);
                }
                ThreadStatus::Normal
            },
            LoadOutcome::Syntax(m) => {
                self.push_slot_str(m);
                proof {
                    assert(self.stack@.drop_last() =~= old(self).stack@);
                }
                ThreadStatus::SyntaxError
            },
            LoadOutcome::Memory(m) => {
                self.push_slot_str(m);
                proof {
                    assert(self.stack@.drop_last() =~= old(self).stack@);
                }
                ThreadStatus::MemoryError
            },
        }
    }

    /// Applies the protected-call convention to a call outcome: success
    /// reports the normal status and leaves the stack alone (the callee's
    /// results are already in place); a failure pushes exactly its error
    /// message and reports the matching error status, never a host-level
    /// abort.
    pub fn finish_protected_call(&mut self, err: Option<(CallFailure, String)>) -> (st:
        ThreadStatus)
        requires
            old(self).wf(),
            old(self).top() < old(self).cap as int,
        ensures
            final(self).wf(),
            State::same_frame(*old(self), *final(self)),
            (err is None ==> st == ThreadStatus::Normal && final(self).stack@ == old(self).stack@),
            (err matches Some((k, m)) ==> st == spec_failure_status(k) && st.is_err_spec()
                && final(self).stack@ == old(self).stack@.push(Value::Str(m))),
    {
        match err {
            None => ThreadStatus::Normal,
            Some((k, m)) => {
                self.push_slot_str(m);
                match k {
                    CallFailure::Runtime => ThreadStatus::RuntimeError,
                    CallFailure::Memory => ThreadStatus::MemoryError,
                    CallFailure::Gc => ThreadStatus::GcError,
                    CallFailure::MessageHandler => ThreadStatus::MessageHandlerError,
                }
            },
        }
    }

    /// Pushes an owned string as a stack value.
    fn push_slot_str(&mut self, m: String)
        requires
            old(self).wf(),
            old(self).top() < old(self).cap as int,
        ensures
            final(self).wf(),
            State::same_frame(*old(self), *final(self)),
            final(self).stack@ == old(self).stack@.push(Value::Str(m)),
    {
        self.stack.push(Value::Str(m));
    }
}

impl ThreadStatus {
    /// Whether this status is an error status, at the specification level.
    pub open spec fn is_err_spec(self) -> bool {
        !(self is Normal || self is Yield)
    }
}

} // verus!
