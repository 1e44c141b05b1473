use vstd::prelude::*;
use crate::message::Message;
use crate::mpmcpq::{release_step, Notify, PriorityQueue};
use crate::progress::Progress;

verus! {

/// Wraps a received message while the receiver works on it. Until the guard
/// is released the message counts as in flight, so the queue does not report
/// itself drained.
#[derive(Debug)]
pub struct ReceiveGuard<M> {
    msg: Message<M>,
}

impl<M> View for ReceiveGuard<M> {
    type V = Message<M>;

    closed spec fn view(&self) -> Message<M> {
        self.msg
    }
}

impl<M> ReceiveGuard<M> {
    pub(crate) fn new(msg: Message<M>) -> (r: Self)
        ensures
            r@ == msg,
    {
        ReceiveGuard { msg }
    }

    /// Returns a reference to the contained message.
    pub fn message(&self) -> (r: &Message<M>)
        ensures
            *r == self@,
    {
        &self.msg
    }

    /// Hands out the guarded message as the guard is dropped.
    pub(crate) fn unwrap_message(self) -> (r: Message<M>)
        ensures
            r == self@,
    {
        self.msg
    }

    /// Takes the message out of the guard and releases the guard on the queue
    /// `pq` it came from: one message fewer is in flight, and when it was the
    /// last one the `Drained` notice is queued. Returns the message and whom
    /// to wake.
    pub fn into_message(self, pq: &mut PriorityQueue<M>, progress: &mut Progress) -> (r: (
        Message<M>,
        Notify,
    ))
        requires
            old(pq).wf(),
            old(progress)@.in_flight > 0,
        ensures
            final(pq).wf(),
            r.0 == self@,
            release_step(old(pq)@, old(progress)@, final(pq)@, final(progress)@, r.1),
    {
        pq.release_guard(progress, self)
    }
}

} // verus!
