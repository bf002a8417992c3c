use vstd::prelude::*;

verus! {

/// Everything that can go wrong in this library, in one taxonomy.
///
/// The decoding functions return only `Truncated`, `InvalidEncoding` and
/// `HashMismatch`; the transport-status helpers return only
/// `TransportError` and `Timeout`; `HandlerPanic` reports a subscriber
/// callback that aborted abnormally and is produced by the dispatch glue
/// around this crate.
#[derive(Clone, Copy, Debug, PartialEq, Eq, Structural)]
pub enum LcmError {
    /// Too few bytes to decode the value.
    Truncated,
    /// Malformed bytes: a boolean tag other than 0 or 1, invalid UTF-8,
    /// a negative string length, or a missing 0x00 string terminator.
    InvalidEncoding,
    /// The 8-byte fingerprint prefix does not match the expected type.
    HashMismatch,
    /// An underlying transport primitive failed.
    TransportError,
    /// A blocking wait expired before a message arrived.
    Timeout,
    /// A subscriber callback aborted abnormally.
    HandlerPanic,
}

} // verus!
