//! One-shot message channels.
//!
//! [`Channel`] is the single-struct form: one slot that is filled at most
//! once and emptied at most once.  [`channel`] splits the two rights
//! apart: the returned [`Sender`] is the one-shot right to fill the slot
//! — consumed by sending — and the [`Receiver`] owns the slot itself.

use vstd::prelude::*;

verus! {

/// A one-shot channel: a single message slot, filled at most once.
pub struct Channel<T> {
    message: Option<T>,
    used: bool,
}

impl<T> Channel<T> {
    /// The message currently waiting in the channel, if any.
    pub closed spec fn stored(self) -> Option<T> {
        self.message
    }

    /// Whether a message was ever sent through this channel.
    pub closed spec fn used(self) -> bool {
        self.used
    }

    /// A waiting message can only have come from a send.
    pub open spec fn wf(self) -> bool {
        self.stored() is Some ==> self.used()
    }

    /// A fresh channel: empty, never sent on.
    pub fn new() -> (c: Channel<T>)
        ensures
            c.wf(),
            c.stored() is None,
            !c.used(),
    {
        Channel { message: None, used: false }
    }

    /// Put a message into the channel.  The channel is one-shot: sending
    /// a second time is an error, so it is asked only of channels that
    /// were never sent on.
    pub fn send(&mut self, message: T)
        requires
            old(self).wf(),
            !old(self).used(),
        ensures
            final(self).wf(),
            final(self).used(),
            final(self).stored() == Some(message),
    {
        self.used = true;
        self.message = Some(message);
    }

    /// Whether a message is waiting to be received.
    pub fn is_ready(&self) -> (r: bool)
        ensures
            r == (self.stored() is Some),
    {
        self.message.is_some()
    }

    /// Take the waiting message out of the channel.  Receiving from a
    /// channel with no waiting message is an error, so it is asked only
    /// when a message is ready; afterwards the slot is empty again.
    pub fn receive(&mut self) -> (r: T)
        requires
            old(self).wf(),
            old(self).stored() is Some,
        ensures
            final(self).wf(),
            final(self).stored() is None,
            final(self).used(),
            Some(r) == old(self).stored(),
    {
        match self.message.take() {
            Some(message) => message,
            None => vstd::pervasive::unreached(),
        }
    }
}

/// The one-shot right to fill a receiver's slot; sending consumes it.
/// The private field keeps callers from minting senders of their own.
pub struct Sender {
    permit: (),
}

/// The receiving half of a split channel: it owns the message slot.
pub struct Receiver<T> {
    message: Option<T>,
    sent: bool,
}

/// A fresh sender/receiver pair with an empty slot.
pub fn channel<T>() -> (pair: (Sender, Receiver<T>))
    ensures
        pair.1.wf(),
        pair.1.stored() is None,
        !pair.1.sent(),
{
    (Sender { permit: () }, Receiver { message: None, sent: false })
}

impl Sender {
    /// Put a message into the receiver's slot, consuming the right to
    /// send.  The slot is one-shot, so the receiver must not have been
    /// sent to before.
    pub fn send<T>(self, receiver: &mut Receiver<T>, message: T)
        requires
            old(receiver).wf(),
            !old(receiver).sent(),
        ensures
            final(receiver).wf(),
            final(receiver).sent(),
            final(receiver).stored() == Some(message),
    {
        receiver.sent = true;
        receiver.message = Some(message);
    }
}

impl<T> Receiver<T> {
    /// The message currently waiting in the slot, if any.
    pub closed spec fn stored(self) -> Option<T> {
        self.message
    }

    /// Whether a message was ever sent into this receiver.
    pub closed spec fn sent(self) -> bool {
        self.sent
    }

    /// A waiting message can only have come from a send.
    pub open spec fn wf(self) -> bool {
        self.stored() is Some ==> self.sent()
    }

    /// Whether a message is waiting to be received.
    pub fn is_ready(&self) -> (r: bool)
        ensures
            r == (self.stored() is Some),
    {
        self.message.is_some()
    }

    /// Take the message, consuming the receiver.  Receiving before a
    /// message is ready is an error, so it is asked only of a receiver
    /// whose slot is filled.
    pub fn receive(self) -> (r: T)
        requires
            self.stored() is Some,
        ensures
            Some(r) == self.stored(),
    {
        match self.message {
            Some(message) => message,
            None => vstd::pervasive::unreached(),
        }
    }
}

} // verus!
