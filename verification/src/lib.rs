//! Marshalling and subscription bookkeeping for a publish/subscribe
//! messaging client.
//!
//! The crate has three layers:
//!
//! * a wire codec that maps typed values to and from a fixed big-endian
//!   binary format ([`codec`], [`encode`], [`message`]);
//! * a structural 64-bit fingerprint per message type, prefixed to every
//!   payload so that a receiver never misinterprets bytes of another type
//!   ([`fingerprint`]);
//! * a subscription registry and dispatch core that resolves an opaque
//!   token to a subscription, decodes the delivery, and decides whether a
//!   message is handed to the subscriber or silently dropped
//!   ([`registry`]).
//!
//! The transport itself (socket handling, the blocking wait loop) lives
//! outside this crate; the functions here compute everything the transport
//! glue needs to decide.

pub mod codec;
pub mod encode;
pub mod error;
pub mod example;
pub mod fingerprint;
pub mod lcm_gen;
pub mod message;
pub mod registry;
pub mod shared;
pub mod transport;

pub use encode::Encode;
pub use error::LcmError;
pub use lcm_gen::LcmGen;
pub use message::Message;
pub use registry::{LcmSubscription, Registry};
pub use shared::SharedRegistry;
