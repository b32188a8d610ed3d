//! Cooperative cancellation: a counter that a handle bumps and that a scope watches.

use vstd::prelude::*;
use std::sync::Arc;
use std::sync::atomic::AtomicUsize;
use std::sync::atomic::Ordering;
use crate::error::{Error, ErrorView};

verus! {

/// Asks for the cancellation of whatever operation is under way. Handles are cheap to copy and
/// may be used from any thread.
pub struct SqlInterruptHandle {
    counter: Arc<AtomicUsize>,
}

/// Watches for a cancellation that is asked for after the scope was begun.
pub struct SqlInterruptScope {
    start_value: usize,
    counter: Arc<AtomicUsize>,
}

/// Whether the poll with the number `k` says that an interrupt was asked for, where `given`
/// holds what the polls say in their order. A poll that is not given says no.
pub open spec fn polled(given: Seq<bool>, k: int) -> bool {
    0 <= k < given.len() && given[k]
}

/// Whether one of the first `n` polls says that an interrupt was asked for.
pub open spec fn any_polled(given: Seq<bool>, n: int) -> bool {
    exists|k: int| 0 <= k < n && #[trigger] polled(given, k)
}

/// What the poll with the number `k` says: what `scope` notices now, where there is a scope,
/// else what is given for it.
pub fn poll(scope: Option<&SqlInterruptScope>, given: &[bool], k: usize) -> (r: bool)
    ensures
        scope is None ==> r == polled(given@, k as int),
{
    match scope {
        Some(watch) => watch.was_interrupted(),
        None => k < given.len() && given[k],
    }
}

impl SqlInterruptHandle {
    /// The counter that the handle bumps.
    pub closed spec fn counter(&self) -> Arc<AtomicUsize> {
        self.counter
    }

    /// A handle on `counter`.
    pub fn new(counter: Arc<AtomicUsize>) -> (r: SqlInterruptHandle)
        ensures
            r.counter() == counter,
    {
        SqlInterruptHandle { counter }
    }

    /// Asks every scope that was begun on the same counter to give up.
    pub fn interrupt(&self) {
        self.counter.fetch_add(1, Ordering::SeqCst);
    }
}

impl Clone for SqlInterruptHandle {
    fn clone(&self) -> Self {
        SqlInterruptHandle { counter: self.counter.clone() }
    }
}

impl SqlInterruptScope {
    /// The counter that the scope watches.
    pub closed spec fn counter(&self) -> Arc<AtomicUsize> {
        self.counter
    }

    /// What the counter stood at when the scope was begun.
    pub closed spec fn start_value(&self) -> usize {
        self.start_value
    }

    /// A scope on `counter` that was begun when the counter stood at `start_value`.
    pub fn begun_at(counter: Arc<AtomicUsize>, start_value: usize) -> (r: SqlInterruptScope)
        ensures
            r.counter() == counter,
            r.start_value() == start_value,
    {
        SqlInterruptScope { start_value, counter }
    }

    /// A scope that notices every interrupt on `counter` from now on: it is begun at what the
    /// counter stands at now.
    pub fn new(counter: Arc<AtomicUsize>) -> (r: SqlInterruptScope)
        ensures
            r.counter() == counter,
    {
        let start_value = counter.load(Ordering::SeqCst);
        SqlInterruptScope::begun_at(counter, start_value)
    }

    /// Whether an interrupt was asked for since the scope was begun, given what the counter
    /// stands at: it was, unless the counter stands where it stood then.
    pub fn notices(&self, reading: usize) -> (r: bool)
        ensures
            r == (reading != self.start_value()),
    {
        reading != self.start_value
    }

    /// Whether an interrupt was asked for since the scope was begun.
    pub fn was_interrupted(&self) -> bool {
        let reading = self.counter.load(Ordering::SeqCst);
        self.notices(reading)
    }

    /// Fails with `Interrupted` where an interrupt was asked for since the scope was begun,
    /// given what the counter stands at.
    pub fn err_if_noticed(&self, reading: usize) -> (r: Result<(), Error>)
        ensures
            r is Err <==> reading != self.start_value(),
            r matches Err(e) ==> e@ == ErrorView::Interrupted,
    {
        if self.notices(reading) {
            Err(Error::Interrupted)
        } else {
            Ok(())
        }
    }

    /// Fails with `Interrupted` where an interrupt was asked for since the scope was begun.
    pub fn err_if_interrupted(&self) -> (r: Result<(), Error>)
        ensures
            r matches Err(e) ==> e@ == ErrorView::Interrupted,
    {
        let reading = self.counter.load(Ordering::SeqCst);
        self.err_if_noticed(reading)
    }
}

} // verus!
