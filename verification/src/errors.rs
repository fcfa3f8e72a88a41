//! The failure taxonomy of the driver-communication layer, and the mapping
//! from raw transport outcomes to it.
//!
//! The embedding application performs the blocking port calls and hands their
//! raw outcome — the OS status code of a failed call, the count of bytes a
//! poll wrote — to the functions here, which decide what each outcome means
//! for the protocol. No outcome is retried at this layer.

use crate::shared_def::{ReplyIrp, REPLY_HEADER_SIZE};
use vstd::bytes::spec_u64_from_le_bytes;
use vstd::prelude::*;

verus! {

/// Everything that can go wrong talking to the minifilter. Each variant
/// carries the raw OS status code that caused it, for diagnostics.
#[derive(Debug, Clone, Copy, PartialEq, Eq, Structural)]
pub enum DriverComError {
    /// The channel could not be opened: the driver is not running, or it
    /// already serves another connection. Not retryable at this layer.
    PortUnavailable(u32),
    /// The transport accepted a command but the driver or OS reported
    /// failure for it. The caller decides whether to retry.
    CommandRejected(u32),
    /// The OS call underlying a poll itself failed — distinct from "no new
    /// events". The port is assumed broken; close and reopen it.
    TransportFailure(u32),
    /// A reply's linked list claimed more records than could be walked.
    /// Defensive: the unmarshaler stops early and returns the valid prefix
    /// instead of raising this, so partial batches are never lost.
    MalformedLinkedList,
}

/// Decides what an attempt to open the communication port means: a transport
/// error code becomes `PortUnavailable` with that code.
pub fn open_outcome(transport_error: Option<u32>) -> (r: Result<(), DriverComError>)
    ensures
        r == (match transport_error {
            Option::None => Result::<(), DriverComError>::Ok(()),
            Option::Some(code) => Result::<(), DriverComError>::Err(
                DriverComError::PortUnavailable(code),
            ),
        }),
{
    match transport_error {
        Option::None => Result::Ok(()),
        Option::Some(code) => Result::Err(DriverComError::PortUnavailable(code)),
    }
}

/// Decides what sending the register-pid command meant: a transport error
/// code becomes `CommandRejected` with that code.
pub fn register_outcome(transport_error: Option<u32>) -> (r: Result<(), DriverComError>)
    ensures
        r == (match transport_error {
            Option::None => Result::<(), DriverComError>::Ok(()),
            Option::Some(code) => Result::<(), DriverComError>::Err(
                DriverComError::CommandRejected(code),
            ),
        }),
{
    match transport_error {
        Option::None => Result::Ok(()),
        Option::Some(code) => Result::Err(DriverComError::CommandRejected(code)),
    }
}

/// Decides what sending the kill-group command meant: on success the driver's
/// raw status word is handed through uninterpreted — what a given status
/// means for a partially killed family is the caller's policy — and a
/// transport error code becomes `CommandRejected` with that code, never a
/// panic.
pub fn kill_outcome(transport_error: Option<u32>, status: u32) -> (r: Result<u32, DriverComError>)
    ensures
        r == (match transport_error {
            Option::None => Result::<u32, DriverComError>::Ok(status),
            Option::Some(code) => Result::<u32, DriverComError>::Err(
                DriverComError::CommandRejected(code),
            ),
        }),
{
    match transport_error {
        Option::None => Result::Ok(status),
        Option::Some(code) => Result::Err(DriverComError::CommandRejected(code)),
    }
}

/// Decides what a poll meant. A transport error code becomes
/// `TransportFailure` with that code; zero bytes written is the normal "no
/// new events" outcome; anything else is a reply whose header sits at the
/// buffer's start.
pub fn poll_outcome(transport_error: Option<u32>, bytes_returned: u32, buf: &[u8]) -> (r: Result<
    Option<ReplyIrp>,
    DriverComError,
>)
    requires
        buf@.len() >= REPLY_HEADER_SIZE,
    ensures
        transport_error matches Some(code) ==> r == Result::<Option<ReplyIrp>, DriverComError>::Err(
            DriverComError::TransportFailure(code),
        ),
        transport_error is None && bytes_returned == 0 ==> r == Result::<
            Option<ReplyIrp>,
            DriverComError,
        >::Ok(None),
        transport_error is None && bytes_returned != 0 ==> (r matches Ok(Some(h)) && {
            &&& h.data_size == spec_u64_from_le_bytes(buf@.subrange(0, 8))
            &&& h.data == spec_u64_from_le_bytes(buf@.subrange(8, 16))
            &&& h.num_ops == spec_u64_from_le_bytes(buf@.subrange(16, 24))
        }),
{
    match transport_error {
        Option::Some(code) => Result::Err(DriverComError::TransportFailure(code)),
        Option::None => Result::Ok(ReplyIrp::from_poll(bytes_returned, buf)),
    }
}

} // verus!
