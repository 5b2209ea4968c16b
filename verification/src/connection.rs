//! The rules that a subscriber's connection lives by. A connection has two
//! duties, forwarding what is broadcast and listening to its client, and
//! ends as soon as one of them ends.

use vstd::prelude::*;
use crate::config::MAX_RECONNECT_WAIT_SECS;

verus! {

/// What the broadcast channel hands a connection that waits on it.
#[derive(Clone, Copy, Debug, PartialEq, Eq, Structural)]
pub enum Delivery {
    /// The next message.
    Message,
    /// The news that messages were missed.
    Lagged,
    /// The news that no message will come any more.
    Closed,
}

/// What the forwarding duty does next.
#[derive(Clone, Copy, Debug, PartialEq, Eq, Structural)]
pub enum ForwardStep {
    /// It sends the message on to the client.
    Send,
    /// It goes on to wait for the next message.
    Skip,
    /// It ends.
    Stop,
}

/// What the forwarding duty does with a delivery: a message is sent on,
/// missed messages are passed over, and a closed channel ends the duty.
pub fn on_delivery(delivery: Delivery) -> (step: ForwardStep)
    ensures
        delivery == Delivery::Message <==> step == ForwardStep::Send,
        delivery == Delivery::Lagged <==> step == ForwardStep::Skip,
        delivery == Delivery::Closed <==> step == ForwardStep::Stop,
{
    match delivery {
        Delivery::Message => ForwardStep::Send,
        Delivery::Lagged => ForwardStep::Skip,
        Delivery::Closed => ForwardStep::Stop,
    }
}

/// What the listening duty gets when it has waited for its client.
#[derive(Clone, Copy, Debug, PartialEq, Eq, Structural)]
pub enum Inbound {
    /// A frame, whatever it holds.
    Frame,
    /// A failure of the transport.
    Failed,
    /// The end of the stream.
    Ended,
    /// Nothing within the idle timeout.
    TimedOut,
}

/// Whether the listening duty goes on, with the idle timeout counted anew:
/// it does after a frame, and ends after anything else.
pub fn keeps_listening(inbound: Inbound) -> (goes_on: bool)
    ensures
        goes_on == (inbound == Inbound::Frame),
{
    match inbound {
        Inbound::Frame => true,
        _ => false,
    }
}

/// The failed connection attempts in a row after one more attempt: none
/// after a success, one more after a failure.
pub open spec fn failures_after(failures: u32, connected: bool) -> u32 {
    if connected {
        0
    } else if failures == u32::MAX {
        u32::MAX
    } else {
        (failures + 1) as u32
    }
}

/// Counts the failed connection attempts in a row.
pub fn count_failures(failures: u32, connected: bool) -> (r: u32)
    ensures
        r == failures_after(failures, connected),
{
    if connected {
        0
    } else {
        failures.saturating_add(1)
    }
}

/// The seconds to wait before the next connection attempt: one for each
/// failed attempt in a row, up to the ceiling.
pub fn reconnect_wait(failures: u32) -> (secs: u64)
    ensures
        secs == (if failures <= MAX_RECONNECT_WAIT_SECS {
            failures as u64
        } else {
            MAX_RECONNECT_WAIT_SECS
        }),
{
    if failures as u64 <= MAX_RECONNECT_WAIT_SECS {
        failures as u64
    } else {
        MAX_RECONNECT_WAIT_SECS
    }
}

} // verus!
