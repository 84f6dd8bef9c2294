//! The error channel: per-thread storage for the most recent unread failure
//! message.
//!
//! The boundary functions return plain scalars and handles, with no room for
//! an error object, so a failing call records its message here and returns a
//! sentinel instead. The diagnostic accessor has take semantics: a message is
//! delivered to the caller exactly once, and a second read finds the slot
//! empty again. One slot exists per calling thread (the thread-local cell
//! itself lives outside the verified core); nothing here is shared between
//! threads.

use vstd::prelude::*;

verus! {

/// Storage for at most one pending failure message.
///
/// The view is the pending message, `None` when the slot is clear.
pub struct ErrorSlot {
    pending: Option<String>,
}

/// The message a read of the slot delivers: the pending message, if any.
pub open spec fn take_result(slot: Option<Seq<char>>) -> Option<Seq<char>> {
    slot
}

/// The slot after a read: always clear.
pub open spec fn after_take(slot: Option<Seq<char>>) -> Option<Seq<char>> {
    None
}

/// The view of an optional owned message.
pub open spec fn msg_view(m: Option<String>) -> Option<Seq<char>> {
    match m {
        Some(s) => Some(s@),
        None => None,
    }
}

impl View for ErrorSlot {
    type V = Option<Seq<char>>;

    closed spec fn view(&self) -> Option<Seq<char>> {
        msg_view(self.pending)
    }
}

impl ErrorSlot {
    /// A fresh slot: no message is pending.
    pub fn empty() -> (slot: Self)
        ensures
            slot@ is None,
    {
        ErrorSlot { pending: None }
    }

    /// Records a failure message, replacing any message still pending.
    pub fn set_error(&mut self, msg: String)
        ensures
            final(self)@ == Some(msg@),
    {
        self.pending = Some(msg);
    }

    /// Clears the slot without delivering anything.
    pub fn clear(&mut self)
        ensures
            final(self)@ is None,
    {
        self.pending = None;
    }

    /// Whether a message is pending.
    pub fn has_pending(&self) -> (b: bool)
        ensures
            b == (self@ is Some),
    {
        self.pending.is_some()
    }

    /// Delivers the pending message, if any, and clears the slot: the
    /// diagnostic accessor's take semantics.
    pub fn take(&mut self) -> (msg: Option<String>)
        ensures
            msg_view(msg) == take_result(old(self)@),
            final(self)@ == after_take(old(self)@),
    {
        let mut taken: Option<String> = None;
        core::mem::swap(&mut self.pending, &mut taken);
        taken
    }
}

/// A recorded message is delivered exactly once: the first read after a
/// failure yields the message, and a second consecutive read yields nothing.
pub proof fn lemma_message_delivered_exactly_once(msg: Seq<char>)
    ensures
        take_result(Some(msg)) == Some(msg),
        take_result(after_take(Some(msg))) is None,
{
}

} // verus!
