//! The fault barrier: converts a failed or aborted operation into a sentinel
//! result plus a message in the error channel.
//!
//! Every exported entry point runs its operation behind a barrier. A
//! recoverable rejection and an intercepted internal fault both end the same
//! way: the message is recorded in the calling thread's [`ErrorSlot`] and the
//! caller receives a sentinel (nothing) instead of a value. The calling
//! process is never torn down by a failure inside the layer. The unwinding
//! catch itself lives outside the verified core; it hands the outcome of the
//! operation to the functions here.

use vstd::prelude::*;

use crate::error_slot::ErrorSlot;

verus! {

/// Why an operation did not produce a value.
///
/// The two variants surface identically to the caller; the taxonomy exists
/// for the catch logic of the barrier alone.
#[derive(Debug)]
pub enum Failure {
    /// The engine rejected the operation: a bad column name, a shape
    /// mismatch, an unsupported conversion.
    Domain(String),
    /// An internal invariant broke and the abort was intercepted before it
    /// could leave the layer.
    Fault(String),
}

impl Failure {
    /// The diagnostic text carried by either variant.
    pub open spec fn spec_message(&self) -> Seq<char> {
        match self {
            Failure::Domain(m) => m@,
            Failure::Fault(m) => m@,
        }
    }

    /// Reads the diagnostic text.
    pub fn message(&self) -> (m: &String)
        ensures
            m@ == self.spec_message(),
    {
        match self {
            Failure::Domain(m) => m,
            Failure::Fault(m) => m,
        }
    }

    /// Surrenders the diagnostic text.
    pub fn into_message(self) -> (m: String)
        ensures
            m@ == self.spec_message(),
    {
        match self {
            Failure::Domain(m) => m,
            Failure::Fault(m) => m,
        }
    }
}

/// What an intercepted abort carried: readable text, or a payload the
/// barrier cannot interpret.
#[derive(Debug)]
pub enum FaultPayload {
    Text(String),
    Opaque,
}

/// The diagnostic a payload yields.
pub open spec fn spec_fault_text(p: FaultPayload) -> Seq<char> {
    match p {
        FaultPayload::Text(m) => m@,
        FaultPayload::Opaque => "Unknown Rust Panic"@,
    }
}

/// Extracts the best available diagnostic from an intercepted abort.
pub fn fault_message(p: FaultPayload) -> (m: String)
    ensures
        m@ == spec_fault_text(p),
{
    match p {
        FaultPayload::Text(m) => m,
        FaultPayload::Opaque => String::from_str("Unknown Rust Panic"),
    }
}

/// Turns an intercepted abort into the failure the barrier records.
pub fn fault_of_payload(p: FaultPayload) -> (f: Failure)
    ensures
        f matches Failure::Fault(m) && m@ == spec_fault_text(p),
{
    Failure::Fault(fault_message(p))
}

/// The barrier for an operation that returns a value.
///
/// On success the value passes through untouched and the error channel is
/// left alone. On failure the message is recorded and the caller gets
/// nothing; the boundary maps that to the sentinel of the concrete return
/// type (a null pointer, zero, or false).
pub fn guard<T>(slot: &mut ErrorSlot, outcome: Result<T, Failure>) -> (r: Option<T>)
    ensures
        match outcome {
            Ok(v) => r == Some(v) && final(slot)@ == old(slot)@,
            Err(f) => r is None && final(slot)@ == Some(f.spec_message()),
        },
{
    match outcome {
        Ok(v) => Some(v),
        Err(f) => {
            slot.set_error(f.into_message());
            None
        },
    }
}

/// The barrier for an operation that returns nothing: a failure is recorded,
/// and nothing else changes for the caller.
pub fn guard_void(slot: &mut ErrorSlot, outcome: Result<(), Failure>)
    ensures
        match outcome {
            Ok(_) => final(slot)@ == old(slot)@,
            Err(f) => final(slot)@ == Some(f.spec_message()),
        },
{
    match outcome {
        Ok(_) => (),
        Err(f) => slot.set_error(f.into_message()),
    }
}

/// After a failing call the diagnostic accessor delivers the failure's
/// message, exactly once: the barrier records it, the first read returns it
/// and clears the slot, and a second read returns nothing.
pub proof fn lemma_failure_surfaces_once(f: Failure)
    ensures
        crate::error_slot::take_result(Some(f.spec_message())) == Some(f.spec_message()),
        crate::error_slot::take_result(
            crate::error_slot::after_take(Some(f.spec_message())),
        ) is None,
{
}

} // verus!
