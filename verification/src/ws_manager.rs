//! Admission of subscribers and the channel that reaches them.

use vstd::prelude::*;
use vstd::string::*;
use vstd::slice::slice_to_vec;
use bytes::Bytes;
use tokio::sync::broadcast::{Receiver, Sender};
use crate::config::{CHANNEL_CAPACITY, MAX_CONNECTIONS};
use crate::json::{bytes_from_vec, bytes_of};
use crate::snapshot::lit;

verus! {

#[verifier::external_type_specification]
#[verifier::external_body]
#[verifier::reject_recursive_types(T)]
pub struct ExSender<T>(Sender<T>);

#[verifier::external_type_specification]
#[verifier::external_body]
#[verifier::reject_recursive_types(T)]
pub struct ExReceiver<T>(Receiver<T>);

/// `broadcast::channel` makes a channel that buffers `capacity` messages;
/// its sending half is kept, and its first receiver is let go.
#[verifier::external_body]
fn open_channel(capacity: usize) -> Sender<Bytes>
    requires
        0 < capacity <= usize::MAX / 2,
{
    tokio::sync::broadcast::channel(capacity).0
}

/// `Sender::subscribe` makes a receiver for the messages sent from now on.
#[verifier::external_body]
fn new_receiver(tx: &Sender<Bytes>) -> Receiver<Bytes> {
    tx.subscribe()
}

/// `Sender::send` hands a message to every receiver there is and does not
/// wait for any of them; with no receiver the message is dropped.
#[verifier::external_body]
fn send_to_all(tx: &Sender<Bytes>, data: Bytes) {
    let _ = tx.send(data);
}

/// The sending half of the channel and the number of admitted subscribers.
pub struct WsManager {
    tx: Sender<Bytes>,
    connection_count: usize,
}

impl WsManager {
    /// The number of admitted subscribers.
    pub closed spec fn connections(&self) -> nat {
        self.connection_count as nat
    }

    /// Never more subscribers are admitted than the limit allows.
    pub open spec fn wf(&self) -> bool {
        self.connections() <= MAX_CONNECTIONS
    }

    /// A manager without subscribers.
    pub fn new() -> (m: Self)
        ensures
            m.wf(),
            m.connections() == 0,
    {
        Self { tx: open_channel(CHANNEL_CAPACITY), connection_count: 0 }
    }

    /// Admits a subscriber and hands out its receiver, unless the limit is
    /// reached: then nothing changes and there is no receiver.
    pub fn subscribe(&mut self) -> (r: Option<Receiver<Bytes>>)
        requires
            old(self).wf(),
        ensures
            final(self).wf(),
            r is Some <==> old(self).connections() < MAX_CONNECTIONS,
            r is Some ==> final(self).connections() == old(self).connections() + 1,
            r is None ==> final(self).connections() == old(self).connections(),
    {
        if self.connection_count >= MAX_CONNECTIONS {
            return None;
        }
        self.connection_count = self.connection_count + 1;
        Some(new_receiver(&self.tx))
    }

    /// Lets one admitted subscriber go.
    pub fn unsubscribe(&mut self)
        requires
            old(self).wf(),
            old(self).connections() > 0,
        ensures
            final(self).wf(),
            final(self).connections() == old(self).connections() - 1,
    {
        self.connection_count = self.connection_count - 1;
    }

    /// Sends a message to every subscriber, without waiting for any.
    pub fn broadcast(&self, data: Bytes) {
        send_to_all(&self.tx, data);
    }

    /// The number of admitted subscribers.
    pub fn count(&self) -> (n: usize)
        ensures
            n == self.connections(),
    {
        self.connection_count
    }

    /// One beat of the heart: a ping goes out where there is a subscriber
    /// to keep alive. Tells whether it went out.
    pub fn heartbeat(&self) -> (sent: bool)
        ensures
            sent == (self.connections() > 0),
    {
        if self.connection_count > 0 {
            self.broadcast(ping_message());
            true
        } else {
            false
        }
    }
}

/// The message that keeps idle connections alive.
pub fn ping_message() -> (b: Bytes)
    ensures
        bytes_of(b) == lit("{\"ping\":true}"),
{
    bytes_from_vec(slice_to_vec("{\"ping\":true}".as_bytes()))
}

} // verus!
