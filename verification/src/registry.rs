//! The subscription registry and the dispatch decision core.
//!
//! The registry owns every live subscription, keyed by a handle the
//! registry itself generates.  The handle is what crosses the foreign
//! delivery boundary as the opaque token — never an address — and
//! handles are never reused, so a token can never refer to a freed
//! subscription.  [`Registry::dispatch`] is the decision half of the
//! delivery trampoline: it resolves a token to its subscription and
//! decides, from the fingerprint prefix alone, whether the bytes are
//! handed to that subscriber's typed decoder or silently dropped.  The
//! outcome is a pure function of the one entry and the bytes, so one
//! subscription's behaviour can never disturb another's.

use vstd::prelude::*;

use std::collections::HashMap;

use crate::codec::{read_u64_be, u64_of_be};
use crate::error::LcmError;
use crate::message::Message;

verus! {

broadcast use vstd::std_specs::hash::group_hash_axioms;

/// How many undelivered messages the transport buffers for a
/// subscription until `subscription_set_queue_capacity` changes it.
pub const DEFAULT_QUEUE_CAPACITY: usize = 30;

/// An opaque ticket for one live subscription.  Only useful for
/// unsubscribing and for tuning the queue capacity; the token inside is
/// what the transport glue passes across the delivery boundary.
#[derive(Debug)]
pub struct LcmSubscription {
    handle: u64,
}

impl LcmSubscription {
    /// The registry handle behind this ticket.
    pub closed spec fn spec_token(&self) -> u64 {
        self.handle
    }

    /// The token the transport glue registers for this subscription.
    pub fn token(&self) -> (t: u64)
        ensures
            t == self.spec_token(),
    {
        self.handle
    }
}

/// One live subscription: its channel, the fingerprint of the message
/// type it expects, and its queue-capacity setting.
#[derive(Debug)]
pub struct Subscription {
    pub channel: String,
    pub fingerprint: u64,
    pub queue_capacity: usize,
}

/// What the dispatch core decides for one delivery.
#[derive(Clone, Copy, Debug, PartialEq, Eq, Structural)]
pub enum DispatchOutcome {
    /// The fingerprint matches: hand the bytes to the subscriber's
    /// typed decoder and then its callback.
    Deliver,
    /// Fewer than eight bytes: drop the message silently.
    DropTruncated,
    /// The fingerprint prefix is of another type: drop silently.
    DropHashMismatch,
    /// The token is not a live subscription.
    UnknownHandle,
}

/// The dispatch decision as a pure function of one registry entry and
/// the delivered bytes.
pub open spec fn spec_dispatch(m: Map<u64, Subscription>, token: u64, b: Seq<u8>) -> DispatchOutcome {
    if !m.contains_key(token) {
        DispatchOutcome::UnknownHandle
    } else if b.len() < 8 {
        DispatchOutcome::DropTruncated
    } else if u64_of_be(b.subrange(0, 8)) != m[token].fingerprint {
        DispatchOutcome::DropHashMismatch
    } else {
        DispatchOutcome::Deliver
    }
}

/// Isolation law: the outcome for a token depends only on that token's
/// own entry and the bytes.  Whatever other subscriptions exist, or how
/// earlier deliveries to them went, a delivery for this token decides
/// the same way.
pub proof fn lemma_dispatch_isolated(
    m1: Map<u64, Subscription>,
    m2: Map<u64, Subscription>,
    token: u64,
    b: Seq<u8>,
)
    requires
        m1.contains_key(token) == m2.contains_key(token),
        m1.contains_key(token) ==> m1[token].fingerprint == m2[token].fingerprint,
    ensures
        spec_dispatch(m1, token, b) == spec_dispatch(m2, token, b),
{
}

/// The dispatch decision and the typed decoder agree.  For a
/// subscription expecting `M`'s fingerprint, the bytes are handed on
/// exactly when they begin with that fingerprint — the same first test
/// `M`'s `decode_with_hash` makes — so a message of another type is
/// dropped here and would equally be refused there, and a delivered
/// message is never refused for its fingerprint.
pub proof fn lemma_deliver_matches_decoder<M: Message>(
    m: Map<u64, Subscription>,
    token: u64,
    b: Seq<u8>,
)
    requires
        m.contains_key(token),
        m[token].fingerprint == M::spec_hash(),
    ensures
        spec_dispatch(m, token, b) == DispatchOutcome::Deliver <==> b.len() >= 8 && u64_of_be(
            b.subrange(0, 8),
        ) == M::spec_hash(),
{
}

/// The exclusive owner of all live subscriptions of one client,
/// keyed by handle.
#[derive(Debug)]
pub struct Registry {
    subscriptions: HashMap<u64, Subscription>,
    next_handle: u64,
}

impl View for Registry {
    type V = Map<u64, Subscription>;

    closed spec fn view(&self) -> Map<u64, Subscription> {
        self.subscriptions@
    }
}

impl Registry {
    /// Every live handle was generated before the next one to be
    /// handed out, so a fresh handle never collides with a live one —
    /// and, since handles only grow, never with a removed one either.
    pub closed spec fn wf(&self) -> bool {
        forall|k: u64| self.subscriptions@.contains_key(k) ==> k < self.next_handle
    }

    /// Whether another handle can still be generated.
    pub closed spec fn spec_handle_space(&self) -> bool {
        self.next_handle < u64::MAX
    }

    /// An empty registry.
    pub fn new() -> (r: Registry)
        ensures
            r.wf(),
            r@ == Map::<u64, Subscription>::empty(),
            r.spec_handle_space(),
    {
        Registry { subscriptions: HashMap::new(), next_handle: 0 }
    }

    /// How many subscriptions are live.
    pub fn len(&self) -> (n: usize)
        ensures
            n == self@.len(),
    {
        self.subscriptions.len()
    }

    /// The live subscription behind a token, if any.
    pub fn subscription(&self, token: u64) -> (r: Option<&Subscription>)
        ensures
            match r {
                Some(sub) => self@.contains_key(token) && *sub == self@[token],
                None => !self@.contains_key(token),
            },
    {
        self.subscriptions.get(&token)
    }

    /// Whether `subscribe` may be called.
    pub fn handle_space(&self) -> (b: bool)
        ensures
            b == self.spec_handle_space(),
    {
        self.next_handle < u64::MAX
    }

    /// Registers a subscription for `channel` expecting messages whose
    /// fingerprint is `fingerprint`, and returns its ticket.  The handle
    /// is fresh: it belongs to no live subscription, and every
    /// subscription keeps its own distinct handle.  A `subscribe` always
    /// creates a new entry; it never mutates an existing one.
    pub fn subscribe(&mut self, channel: String, fingerprint: u64) -> (s: LcmSubscription)
        requires
            old(self).wf(),
            old(self).spec_handle_space(),
        ensures
            final(self).wf(),
            !old(self)@.contains_key(s.spec_token()),
            final(self)@ == old(self)@.insert(
                s.spec_token(),
                (Subscription { channel, fingerprint, queue_capacity: DEFAULT_QUEUE_CAPACITY }),
            ),
            final(self)@.len() == old(self)@.len() + 1,
    {
        let handle = self.next_handle;
        self.next_handle = self.next_handle + 1;
        self.subscriptions.insert(
            handle,
            Subscription { channel, fingerprint, queue_capacity: DEFAULT_QUEUE_CAPACITY },
        );
        LcmSubscription { handle }
    }

    /// Completes an unsubscribe after the transport reported `status`
    /// for removing the native registration.  On success the entry is
    /// removed and dropped; on failure the entry is left intact — never
    /// removed while the transport may still deliver to it — and the
    /// error is surfaced.
    pub fn unsubscribe(&mut self, subscription: LcmSubscription, status: i32) -> (r: Result<
        (),
        LcmError,
    >)
        requires
            old(self).wf(),
        ensures
            final(self).wf(),
            status == 0 ==> r == Ok::<(), LcmError>(()) && final(self)@ == old(self)@.remove(
                subscription.spec_token(),
            ),
            status != 0 ==> r == Err::<(), LcmError>(LcmError::TransportError) && final(self)@
                == old(self)@,
    {
        if status == 0 {
            self.subscriptions.remove(&subscription.handle);
            Ok(())
        } else {
            Err(LcmError::TransportError)
        }
    }

    /// Records the queue-capacity setting for a subscription.  The
    /// bounding itself happens in the transport; this layer only keeps
    /// the setting, and no other field of the entry changes.
    pub fn subscription_set_queue_capacity(
        &mut self,
        subscription: &LcmSubscription,
        num_messages: usize,
    )
        requires
            old(self).wf(),
        ensures
            final(self).wf(),
            old(self)@.contains_key(subscription.spec_token()) ==> final(self)@ == old(
                self,
            )@.insert(
                subscription.spec_token(),
                (Subscription {
                    channel: old(self)@[subscription.spec_token()].channel,
                    fingerprint: old(self)@[subscription.spec_token()].fingerprint,
                    queue_capacity: num_messages,
                }),
            ),
            !old(self)@.contains_key(subscription.spec_token()) ==> final(self)@ == old(self)@,
    {
        match self.subscriptions.remove(&subscription.handle) {
            Some(sub) => {
                self.subscriptions.insert(
                    subscription.handle,
                    Subscription {
                        channel: sub.channel,
                        fingerprint: sub.fingerprint,
                        queue_capacity: num_messages,
                    },
                );
                proof {
                    assert(self.subscriptions@ =~= old(self)@.insert(
                        subscription.spec_token(),
                        (Subscription {
                            channel: old(self)@[subscription.spec_token()].channel,
                            fingerprint: old(self)@[subscription.spec_token()].fingerprint,
                            queue_capacity: num_messages,
                        }),
                    ));
                }
            },
            None => {
                proof {
                    assert(self.subscriptions@ =~= old(self)@);
                }
            },
        }
    }

    /// The decision half of the delivery trampoline.
    ///
    /// Resolves the opaque token back to its subscription and checks the
    /// 8-byte big-endian fingerprint prefix against the type the
    /// subscriber expects.  Only on `Deliver` may the caller run the
    /// subscriber's typed decoder and callback; every other outcome is a
    /// silent drop, so a corrupt or foreign message never reaches a
    /// callback and never stops the dispatch loop.  Nothing in the
    /// registry changes, whatever the outcome.
    pub fn dispatch(&self, token: u64, buffer: &[u8]) -> (o: DispatchOutcome)
        ensures
            o == spec_dispatch(self@, token, buffer@),
    {
        match self.subscriptions.get(&token) {
            None => DispatchOutcome::UnknownHandle,
            Some(sub) => {
                let mut pos: usize = 0;
                match read_u64_be(buffer, &mut pos) {
                    Err(_) => DispatchOutcome::DropTruncated,
                    Ok(h) => {
                        if h != sub.fingerprint {
                            DispatchOutcome::DropHashMismatch
                        } else {
                            DispatchOutcome::Deliver
                        }
                    },
                }
            },
        }
    }
}

} // verus!
