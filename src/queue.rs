use std::collections::VecDeque;
use vstd::prelude::*;

use crate::message::{Envelope, Message};

verus! {

/// The bus's inbound request channel: many senders, one consumer (the bus),
/// strictly first in, first out.
pub struct RequestQueue {
    items: VecDeque<Envelope>,
    sent: Ghost<Seq<Message>>,
}

impl View for RequestQueue {
    type V = Seq<Envelope>;

    /// The requests waiting to be dispatched, oldest first.
    closed spec fn view(&self) -> Seq<Envelope> {
        self.items@
    }
}

impl RequestQueue {
    /// Every message ever sent into this queue, in the order it was sent.
    pub closed spec fn sent(&self) -> Seq<Message> {
        self.sent@
    }

    pub fn new() -> (q: RequestQueue)
        ensures
            q@ == Seq::<Envelope>::empty(),
            q.sent() == Seq::<Message>::empty(),
    {
        RequestQueue { items: VecDeque::new(), sent: Ghost(Seq::empty()) }
    }

    /// Appends a request behind everything already queued.
    pub fn send(&mut self, e: Envelope)
        ensures
            final(self)@ == old(self)@.push(e),
            final(self).sent() == old(self).sent().push(e.message),
    {
        self.items.push_back(e);
        self.sent = Ghost(self.sent@.push(e.message));
    }

    /// Takes the oldest request, if any.
    pub fn recv(&mut self) -> (r: Option<Envelope>)
        ensures
            final(self).sent() == old(self).sent(),
            old(self)@.len() == 0 ==> r is None && final(self)@ == old(self)@,
            old(self)@.len() > 0 ==> r == Some(old(self)@[0]) && final(self)@ == old(self)@.drop_first(),
    {
        let r = self.items.pop_front();
        proof {
            if old(self)@.len() > 0 {
                assert(self.items@ =~= old(self)@.drop_first());
            }
        }
        r
    }

    pub fn len(&self) -> (r: usize)
        ensures
            r == self@.len(),
    {
        self.items.len()
    }
}

} // verus!
