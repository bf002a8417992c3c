//! The lock-guarded shared variant of the registry.
//!
//! A client driven by one thread owns a [`Registry`] directly; a client
//! shared between threads keeps it behind a verified reader–writer
//! lock, and every operation — subscribe, unsubscribe, capacity
//! changes, the dispatch decision — goes through the lock.  The lock's
//! invariant is the registry's well-formedness, so however subscribe
//! and unsubscribe calls from different threads interleave with
//! in-flight dispatches, no two live subscriptions ever share a handle.

use vstd::prelude::*;

use vstd::rwlock::{RwLock, RwLockPredicate};

use crate::error::LcmError;
use crate::registry::{DispatchOutcome, LcmSubscription, Registry};

verus! {

/// The lock invariant: the registry stays well formed.
pub struct RegistryPred;

impl RwLockPredicate<Registry> for RegistryPred {
    open spec fn inv(self, r: Registry) -> bool {
        r.wf()
    }
}

/// A registry behind a reader–writer lock, for clients shared between
/// threads.
///
/// The functional contracts live on [`Registry`], whose operations run
/// under the lock here; what this type adds is the mutual exclusion,
/// and with it the guarantee that the registry another thread observes
/// is always a well-formed one.  Nothing can be promised about the
/// contents a caller sees, since another thread may change them between
/// two calls.
pub struct SharedRegistry {
    lock: RwLock<Registry, RegistryPred>,
}

impl SharedRegistry {
    /// An empty shared registry.
    pub fn new() -> SharedRegistry {
        SharedRegistry { lock: RwLock::new(Registry::new(), Ghost(RegistryPred)) }
    }

    /// How many subscriptions are live at this moment.
    pub fn len(&self) -> usize {
        let handle = self.lock.acquire_read();
        let n = handle.borrow().len();
        handle.release_read();
        n
    }

    /// Registers a subscription under the lock; see
    /// [`Registry::subscribe`].  `None` only when every handle has been
    /// handed out already.
    pub fn subscribe(&self, channel: String, fingerprint: u64) -> Option<LcmSubscription> {
        let (mut registry, handle) = self.lock.acquire_write();
        if registry.handle_space() {
            let subscription = registry.subscribe(channel, fingerprint);
            handle.release_write(registry);
            Some(subscription)
        } else {
            handle.release_write(registry);
            None
        }
    }

    /// Completes an unsubscribe under the lock; see
    /// [`Registry::unsubscribe`].
    pub fn unsubscribe(&self, subscription: LcmSubscription, status: i32) -> Result<
        (),
        LcmError,
    > {
        let (mut registry, handle) = self.lock.acquire_write();
        let r = registry.unsubscribe(subscription, status);
        handle.release_write(registry);
        r
    }

    /// Records a queue-capacity setting under the lock; see
    /// [`Registry::subscription_set_queue_capacity`].
    pub fn subscription_set_queue_capacity(
        &self,
        subscription: &LcmSubscription,
        num_messages: usize,
    ) {
        let (mut registry, handle) = self.lock.acquire_write();
        registry.subscription_set_queue_capacity(subscription, num_messages);
        handle.release_write(registry);
    }

    /// Decides one delivery under a read lock.  The subscriber's
    /// decoder and callback run only after the lock is released, so a
    /// callback may itself subscribe or unsubscribe without deadlock.
    pub fn dispatch(&self, token: u64, buffer: &[u8]) -> DispatchOutcome {
        let handle = self.lock.acquire_read();
        let outcome = handle.borrow().dispatch(token, buffer);
        handle.release_read();
        outcome
    }
}

} // verus!
