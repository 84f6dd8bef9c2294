//! The host-callback protocol: a transform node that carries a host-supplied
//! callback, a cleanup hook, and an opaque host resource token.
//!
//! Per chunk the engine decides to process, the column under transformation
//! is exported as an interchange pair and handed to the host callback, which
//! answers with either a result pair and a zero status or a non-zero status
//! and a message. [`apply_reply`] is the verified half of that exchange: it
//! turns the host's answer into the replacement column or into the domain
//! failure that aborts the operation. The call through the host's function
//! pointer itself happens outside the verified core, which sees only the
//! reply values.
//!
//! The node's cleanup hook is invoked exactly once, when the node is
//! destroyed — however many times the callback ran, including never.
//! [`CallbackBinding`] models the node's resource state and [`CleanupLog`]
//! the host-visible record of cleanup invocations;
//! [`lemma_cleanup_exactly_once`] is the protocol's core guarantee.

use vstd::prelude::*;

use crate::barrier::Failure;
use crate::bridge::{PrimArray, SchemaField, decode_prim, spec_decode};
use crate::column::{Column, ColumnModel};

verus! {

/// The resource half of one callback-bearing node: the host token it must
/// release, and whether it has already done so.
#[derive(Debug)]
pub struct CallbackBinding {
    pub token: u64,
    pub released: bool,
}

/// The host-visible record of cleanup invocations: the tokens handed back,
/// in order.
#[derive(Debug)]
pub struct CleanupLog {
    tokens: Vec<u64>,
}

impl View for CleanupLog {
    type V = Seq<u64>;

    closed spec fn view(&self) -> Seq<u64> {
        self.tokens@
    }
}

impl CleanupLog {
    /// A record of no cleanup invocations.
    pub fn new() -> (log: Self)
        ensures
            log@ == Seq::<u64>::empty(),
    {
        let log = CleanupLog { tokens: Vec::new() };
        proof {
            assert(log@ =~= Seq::<u64>::empty());
        }
        log
    }

    /// How often a token appears in the record.
    pub open spec fn count_of(&self, token: u64) -> nat {
        count_in(self@, token)
    }

    /// How many cleanup invocations the record holds in all.
    pub fn total(&self) -> (n: usize)
        ensures
            n == self@.len(),
    {
        self.tokens.len()
    }

    /// Counts the cleanup invocations that handed back this token.
    pub fn count(&self, token: u64) -> (n: usize)
        ensures
            n == self.count_of(token),
    {
        let mut n: usize = 0;
        let mut i: usize = 0;
        while i < self.tokens.len()
            invariant
                0 <= i <= self.tokens@.len(),
                self@ == self.tokens@,
                n == count_in(self@.take(i as int), token),
                n <= i,
            decreases self.tokens@.len() - i,
        {
            proof {
                assert(self@.take(i as int + 1).drop_last() =~= self@.take(i as int));
                assert(self@.take(i as int + 1).last() == self@[i as int]);
            }
            if self.tokens[i] == token {
                n = n + 1;
            }
            i = i + 1;
        }
        proof {
            assert(self@.take(self@.len() as int) =~= self@);
        }
        n
    }
}

/// How often a token occurs in a record of cleanup invocations.
pub open spec fn count_in(log: Seq<u64>, token: u64) -> nat
    decreases log.len(),
{
    if log.len() == 0 {
        0
    } else {
        count_in(log.drop_last(), token) + (if log.last() == token {
            1nat
        } else {
            0nat
        })
    }
}

impl CallbackBinding {
    /// Binds a node to the host resource it must release on destruction.
    pub fn bind(token: u64) -> (b: Self)
        ensures
            b.token == token,
            !b.released,
    {
        CallbackBinding { token, released: false }
    }

    /// Releases the node's host resource: on the first call the cleanup is
    /// invoked with the token (the invocation joins the log); on any later
    /// call nothing happens. The node's destructor calls this, so the
    /// cleanup runs exactly once whatever the node went through before.
    pub fn release(&mut self, log: &mut CleanupLog)
        ensures
            final(self).token == old(self).token,
            final(self).released,
            !old(self).released ==> final(log)@ == old(log)@.push(old(self).token),
            old(self).released ==> final(log)@ == old(log)@,
    {
        if !self.released {
            log.tokens.push(self.token);
            self.released = true;
        }
    }
}

/// What can happen to a callback-bearing node while it lives: the callback
/// is invoked for a chunk, or the node is destroyed.
#[derive(Debug)]
pub enum NodeEvent {
    Invoke,
    Destroy,
}

/// The node's resource state after one event: only a destruction of a node
/// that still holds its resource releases it.
pub open spec fn step_released(released: bool, e: NodeEvent) -> bool {
    match e {
        NodeEvent::Invoke => released,
        NodeEvent::Destroy => true,
    }
}

/// How many cleanup invocations one event adds.
pub open spec fn step_cleanups(released: bool, e: NodeEvent) -> nat {
    match e {
        NodeEvent::Invoke => 0,
        NodeEvent::Destroy => if released {
            0
        } else {
            1
        },
    }
}

/// How many cleanup invocations a run of events performs, starting from a
/// node in resource state `released`.
pub open spec fn cleanups_in_run(released: bool, events: Seq<NodeEvent>) -> nat
    decreases events.len(),
{
    if events.len() == 0 {
        0
    } else {
        step_cleanups(released, events[0]) + cleanups_in_run(
            step_released(released, events[0]),
            events.drop_first(),
        )
    }
}

/// Releasing appends one invocation for the token and none for any other:
/// the link between the release operation's contract and the counted record.
pub proof fn lemma_count_after_release(log: Seq<u64>, released: u64, other: u64)
    requires
        released != other,
    ensures
        count_in(log.push(released), released) == count_in(log, released) + 1,
        count_in(log.push(released), other) == count_in(log, other),
{
    assert(log.push(released).drop_last() =~= log);
}

/// Whether a run of events contains a destruction.
pub open spec fn run_destroys(events: Seq<NodeEvent>) -> bool {
    exists|i: int| 0 <= i < events.len() && events[i] is Destroy
}

/// A released node stays released and releases nothing further.
proof fn lemma_released_stays_released(events: Seq<NodeEvent>)
    ensures
        cleanups_in_run(true, events) == 0,
    decreases events.len(),
{
    if events.len() > 0 {
        lemma_released_stays_released(events.drop_first());
    }
}

/// The cleanup runs exactly once: across any run of a fresh node's life —
/// zero, one or many invocations, destroyed at any point, even destroyed
/// again — the cleanup is invoked exactly once if the node is ever
/// destroyed, and never otherwise.
pub proof fn lemma_cleanup_exactly_once(events: Seq<NodeEvent>)
    ensures
        cleanups_in_run(false, events) == (if run_destroys(events) {
            1nat
        } else {
            0nat
        }),
    decreases events.len(),
{
    if events.len() > 0 {
        match events[0] {
            NodeEvent::Invoke => {
                lemma_cleanup_exactly_once(events.drop_first());
                if run_destroys(events.drop_first()) {
                    let i = choose|i: int|
                        0 <= i < events.drop_first().len() && events.drop_first()[i] is Destroy;
                    assert(events[i + 1] is Destroy);
                } else if run_destroys(events) {
                    let i = choose|i: int| 0 <= i < events.len() && events[i] is Destroy;
                    assert(events.drop_first()[i - 1] is Destroy);
                }
            },
            NodeEvent::Destroy => {
                lemma_released_stays_released(events.drop_first());
            },
        }
    }
}

/// The text wrapped around a failing callback's own message before it joins
/// the engine's failure channel.
pub open spec fn spec_callback_failure_text(msg: Seq<char>) -> Seq<char> {
    "host callback failed: "@ + msg
}

/// Builds the domain failure that aborts an operation whose callback
/// answered a non-zero status with this message.
pub fn callback_failure(msg: &String) -> (f: Failure)
    ensures
        f matches Failure::Domain(m) && m@ == spec_callback_failure_text(msg@),
{
    let mut text = String::from_str("host callback failed: ");
    text.append(msg.as_str());
    Failure::Domain(text)
}

/// Applies a host callback's reply for one chunk. A zero status means the
/// host wrote a result pair: it is decoded and, under the input column's
/// name, replaces the column for this chunk. A non-zero status, and a
/// result pair that does not decode, abort the operation as a domain
/// failure; a non-zero status carries the callback's own message.
pub fn apply_reply(
    input_name: &String,
    status: i32,
    message: &String,
    array: &PrimArray,
    schema: &SchemaField,
) -> (r: Result<Column, Failure>)
    ensures
        match r {
            Ok(c) => {
                &&& status == 0
                &&& spec_decode(*array, *schema) matches Some(d) && c@ == (ColumnModel {
                    name: input_name@,
                    values: d.values,
                })
            },
            Err(f) => {
                &&& f is Domain
                &&& status != 0 ==> f.spec_message() == spec_callback_failure_text(message@)
                &&& status == 0 ==> spec_decode(*array, *schema) is None
            },
        },
{
    if status != 0 {
        return Err(callback_failure(message));
    }
    match decode_prim(array, schema) {
        Ok(mut c) => {
            c.rename(input_name.clone());
            Ok(c)
        },
        Err(f) => Err(f),
    }
}

} // verus!
