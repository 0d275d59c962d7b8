//! Wakeup forwarding: what the listening connection does with each message.
//!
//! Notifications arrive on a dedicated connection and are forwarded as unit wakeups
//! through a channel of capacity one: the worker re-queries the full claimable set on
//! each wake, so a single pending wakeup already covers any number of notifications
//! that arrive while it is busy.
use crate::text::joined;
use vstd::prelude::*;

verus! {

/// What the connection delivered.
#[derive(Debug, Clone, Copy, PartialEq, Eq, Structural)]
pub enum Message {
    /// A notification.
    Notification,
    /// Anything else, such as a notice.
    Other,
    /// An error.
    Failed,
    /// The end of the connection.
    Closed,
}

/// How a forwarded wakeup fared.
#[derive(Debug, Clone, Copy, PartialEq, Eq, Structural)]
pub enum Delivery {
    /// It was delivered.
    Sent,
    /// A wakeup is already pending and subsumes it.
    AlreadyPending,
    /// The receiver is gone.
    NoReceiver,
}

/// What to do with a message.
#[derive(Debug, Clone, Copy, PartialEq, Eq, Structural)]
pub enum Forward {
    /// Forward a wakeup.
    Wake,
    /// Read the next message.
    Skip,
    /// End: the connection is gone.
    End,
}

/// Decide what to do with a message: a notification is a wakeup, and the connection
/// ends with an error or its close.
pub fn on_message(message: Message) -> (r: Forward)
    ensures
        r is Wake <==> message is Notification,
        r is End <==> message is Failed || message is Closed,
{
    match message {
        Message::Notification => Forward::Wake,
        Message::Other => Forward::Skip,
        Message::Failed | Message::Closed => Forward::End,
    }
}

/// Whether to keep reading after a wakeup was forwarded: until nothing will consume
/// wakeups any more.
pub fn keep_forwarding(delivery: Delivery) -> (r: bool)
    ensures
        r <==> !(delivery is NoReceiver),
{
    match delivery {
        Delivery::Sent | Delivery::AlreadyPending => true,
        Delivery::NoReceiver => false,
    }
}

/// The statement that subscribes to a channel. The channel name is the validated
/// prefix plus a fixed suffix, so it is a safe identifier to interpolate.
pub fn listen_text(channel: &str) -> (r: String)
    ensures
        r@ == "LISTEN "@ + channel@,
{
    joined("LISTEN ", channel)
}

} // verus!
