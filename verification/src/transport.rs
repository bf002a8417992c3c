//! Decision helpers for the transport edge.
//!
//! The transport primitives themselves (create, publish, the blocking
//! wait) live outside this crate and answer with plain status codes;
//! these functions turn each answer into the library's error taxonomy,
//! so the glue around the transport contains no decisions of its own.

use vstd::prelude::*;

use crate::error::LcmError;

verus! {

/// Interprets the status a transport primitive (publish, unsubscribe,
/// plain wait) returns: zero is success, anything else a transport
/// failure.
pub fn transport_status(status: i32) -> (r: Result<(), LcmError>)
    ensures
        status == 0 ==> r == Ok::<(), LcmError>(()),
        status != 0 ==> r == Err::<(), LcmError>(LcmError::TransportError),
{
    if status == 0 {
        Ok(())
    } else {
        Err(LcmError::TransportError)
    }
}

/// Interprets the status of a bounded blocking wait: positive means a
/// message was handled, zero that the timeout elapsed first, negative a
/// transport failure.  A timeout is its own condition, distinct from a
/// transport error, and leaves all subscription state unchanged.
pub fn wait_status(status: i32) -> (r: Result<(), LcmError>)
    ensures
        status > 0 ==> r == Ok::<(), LcmError>(()),
        status == 0 ==> r == Err::<(), LcmError>(LcmError::Timeout),
        status < 0 ==> r == Err::<(), LcmError>(LcmError::TransportError),
{
    if status > 0 {
        Ok(())
    } else if status == 0 {
        Err(LcmError::Timeout)
    } else {
        Err(LcmError::TransportError)
    }
}

/// The whole milliseconds of a duration given as seconds and a
/// sub-second nanosecond part, for the transport's timeout argument.
/// The result must fit the transport's 32-bit signed argument.
pub fn timeout_millis(secs: u64, subsec_nanos: u32) -> (ms: i32)
    requires
        secs * 1000 + subsec_nanos as int / 1000000 <= i32::MAX as int,
    ensures
        ms == secs * 1000 + subsec_nanos as int / 1000000,
{
    (secs * 1000) as i32 + (subsec_nanos / 1000000) as i32
}

} // verus!
