//! Cooperative cancellation between the async caller and the blocking run.
//!
//! Inference happens on a blocking thread, which the runtime cannot interrupt.
//! A [`CancelFlag`] is the way to tell it to stop. Every engine can poll
//! [`CancelFlag::is_cancelled`] between units of work it controls; an engine
//! whose inference call blocks for seconds at a time instead installs an abort
//! action for the duration of that call ([`CancelFlag::install_abort`], then
//! [`CancelFlag::clear_abort`]), which [`CancelFlag::cancel`] invokes from
//! whichever thread noticed the client is gone.
//!
//! The flag and the action slot are shared between threads, so what a read
//! of either returns depends on what other threads did in between: the
//! contracts here state only what holds whatever that was.

use std::sync::atomic::AtomicBool;
use std::sync::atomic::Ordering;
use std::sync::Arc;
use std::sync::Mutex;

use vstd::prelude::*;

verus! {

/// A thread-safe action that stops a running engine call. Engines implement
/// it for whatever reaches into their inference; nothing in this library
/// implements it, and [`CancelFlag::cancel`] promises nothing about what an
/// action does (a panicking action panics the cancelling thread).
pub trait AbortFn: Send + Sync {
    /// Stop the run.
    fn abort(&self);
}

/// An abort action an engine installs for the duration of one call.
pub type AbortAction = Arc<dyn AbortFn>;

#[verifier::external_type_specification]
#[verifier::external_body]
#[verifier::reject_recursive_types(T)]
pub struct ExMutex<T: ?Sized>(Mutex<T>);

/// `Mutex::new(None)`: an empty action slot.
#[verifier::external_body]
fn empty_slot() -> Mutex<Option<AbortAction>> {
    Mutex::new(None)
}

/// `Mutex::lock` then `Option::clone`: the action installed right now, if
/// any. A poisoned lock (a previous holder panicked while swapping the
/// action) still holds a usable plain `Option`, so it is read all the same.
#[verifier::external_body]
fn slot_get(slot: &Mutex<Option<AbortAction>>) -> Option<AbortAction>
{
    slot.lock().unwrap_or_else(|e| e.into_inner()).clone()
}

/// `Mutex::lock` then assignment: install `action`.
#[verifier::external_body]
fn slot_install<A: AbortFn + 'static>(slot: &Mutex<Option<AbortAction>>, action: Arc<A>) {
    *slot.lock().unwrap_or_else(|e| e.into_inner()) = Some(action);
}

/// `Mutex::lock` then assignment: clear the slot.
#[verifier::external_body]
fn slot_clear(slot: &Mutex<Option<AbortAction>>)
{
    *slot.lock().unwrap_or_else(|e| e.into_inner()) = None;
}

struct Inner {
    cancelled: AtomicBool,
    /// Installed for the duration of one engine call, so a cancel arriving
    /// mid-inference reaches the library that is running it.
    abort: Mutex<Option<AbortAction>>,
}

/// A cancellation handle shared by the async caller and the engine call it
/// spawned. Clones share one flag.
#[derive(Clone)]
pub struct CancelFlag(Arc<Inner>);

impl CancelFlag {
    /// A flag that is not raised, with no abort action installed. Nothing is
    /// stated of the result: clones of it are read and written from other
    /// threads, so no fact about its state stays true after this returns.
    pub fn new() -> Self {
        CancelFlag(Arc::new(Inner { cancelled: AtomicBool::new(false), abort: empty_slot() }))
    }

    /// Ask the in-flight run to stop. Idempotent, callable from any thread,
    /// and safe to call when nothing is running: it raises the flag, then
    /// runs the action installed at that moment, if any.
    pub fn cancel(&self)
    {
        self.0.cancelled.store(true, Ordering::SeqCst);
        // Cloned out of the lock: the action reaches into the engine, and
        // holding our mutex across that invites a lock order we do not
        // control.
        let action = slot_get(&self.0.abort);
        if let Some(abort) = action {
            abort.abort();
        }
    }

    /// Whether the flag has been raised, as it reads at this moment. Nothing
    /// is stated of the result: it depends on what other threads did.
    pub fn is_cancelled(&self) -> bool {
        self.0.cancelled.load(Ordering::SeqCst)
    }

    /// Install `abort` as the action a cancel runs, replacing any other.
    ///
    /// A cancel that lands between the caller spawning the run and this
    /// installing the action reaches the flag but not the action, so callers
    /// must check [`CancelFlag::is_cancelled`] after installing and before
    /// starting work.
    pub fn install_abort<A: AbortFn + 'static>(&self, abort: Arc<A>) {
        slot_install(&self.0.abort, abort);
    }

    /// Remove the installed action, so a later cancel cannot reach into a run
    /// that has already finished.
    pub fn clear_abort(&self) {
        slot_clear(&self.0.abort);
    }
}

} // verus!
