//! How the results of engine calls that can fail reach the host: a handle
//! that is null on failure, and an error record that says why.
use vstd::prelude::*;

use crate::handles::HandleTable;

verus! {

/// A failure that the engine reported: its numeric code and its message.
pub struct EngineFailure {
    pub code: i64,
    pub message: String,
}

/// A reusable error record. Code `0` means success; each call that takes the
/// record overwrites it.
pub struct ErrorRecord {
    pub code: i64,
    pub message: String,
}

impl ErrorRecord {
    /// A record that reports success.
    pub fn error_new() -> (r: ErrorRecord)
        ensures
            r.code == 0,
            r.message@.len() == 0,
    {
        ErrorRecord { code: 0, message: String::new() }
    }

    /// The numeric code; `0` is success.
    pub fn error_code(&self) -> (r: i64)
        ensures
            r == self.code,
    {
        self.code
    }

    /// The message of the last failure, empty after a success.
    pub fn error_message(&self) -> (r: &str)
        ensures
            r@ == self.message@,
    {
        self.message.as_str()
    }

    /// Overwrites the record with success.
    pub fn set_success(&mut self)
        ensures
            final(self).code == 0,
            final(self).message@.len() == 0,
    {
        self.code = 0;
        self.message = String::new();
    }

    /// Overwrites the record with `failure`.
    pub fn set_failure(&mut self, failure: EngineFailure)
        ensures
            final(self).code == failure.code,
            final(self).message@ == failure.message@,
    {
        self.code = failure.code;
        self.message = failure.message;
    }
}

/// The engine's code for a failure of unknown kind, reported for a failure
/// that comes without a code of its own.
pub const UNKNOWN_FAILURE: i64 = 9;

/// The code an error record reports for a failure the engine gave `code`.
pub open spec fn failure_code(code: i64) -> i64 {
    if code != 0 {
        code
    } else {
        UNKNOWN_FAILURE
    }
}

/// The message an error record reports for a failure the engine gave
/// `message`.
pub open spec fn failure_message(message: Seq<char>) -> Seq<char> {
    if message.len() > 0 {
        message
    } else {
        "unknown engine failure"@
    }
}

/// A recorded failure always reads as one: its code is non-zero and its
/// message is not empty, whatever the engine handed over.
pub proof fn lemma_failure_reported(code: i64, message: Seq<char>)
    ensures
        failure_code(code) != 0,
        failure_message(message).len() > 0,
{
    reveal_strlit("unknown engine failure");
}

/// Hands the outcome of an engine call to the host. A produced resource goes
/// into `table` under a new handle, which is returned, and `error` reports
/// success. A failure leaves `table` as it was, is recorded in `error` with
/// a non-zero code and a message, and gives the null handle.
pub fn record_outcome<T>(
    table: &mut HandleTable<T>,
    error: &mut ErrorRecord,
    outcome: Result<T, EngineFailure>,
) -> (h: i64)
    requires
        old(table).wf(),
        outcome is Ok ==> old(table).has_room(),
    ensures
        final(table).wf(),
        outcome matches Ok(v) ==> {
            &&& h != 0
            &&& !old(table).issued().contains(h)
            &&& !old(table)@.contains_key(h)
            &&& final(table)@ == old(table)@.insert(h, v)
            &&& final(table).issued() == old(table).issued().insert(h)
            &&& final(error).code == 0
            &&& final(error).message@.len() == 0
        },
        outcome matches Err(f) ==> {
            &&& h == 0
            &&& *final(table) == *old(table)
            &&& final(error).code == failure_code(f.code)
            &&& final(error).message@ == failure_message(f.message@)
        },
{
    match outcome {
        Ok(v) => {
            error.set_success();
            table.insert(v)
        },
        Err(f) => {
            let code = if f.code != 0 {
                f.code
            } else {
                UNKNOWN_FAILURE
            };
            let message = if f.message.as_str().is_empty() {
                String::from_str("unknown engine failure")
            } else {
                f.message
            };
            error.set_failure(EngineFailure { code, message });
            0
        },
    }
}

} // verus!
