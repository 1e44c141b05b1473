use vstd::prelude::*;

verus! {

/// What a `Progress` records: the number of messages in flight and whether
/// the `Drained` notice was already sent for the current idle period.
pub struct ProgressState {
    /// Messages sent and not yet done with: queued, stashed or held by a
    /// receiver, the `Drained` notice included.
    pub in_flight: nat,
    /// Whether a `Drained` notice went out since the last message was sent.
    pub drained: bool,
}

/// The state after a message was sent: one more in flight, not drained.
pub open spec fn started(p: ProgressState) -> ProgressState {
    ProgressState { in_flight: p.in_flight + 1, drained: false }
}

/// The state after a message in flight was done with.
pub open spec fn finished(p: ProgressState) -> ProgressState
    recommends
        p.in_flight > 0,
{
    ProgressState { in_flight: (p.in_flight - 1) as nat, drained: p.drained }
}

/// The state after an attempt to send the `Drained` notice: it succeeds only
/// when no notice went out yet, and the notice itself then counts as in flight.
pub open spec fn claimed(p: ProgressState) -> ProgressState {
    if p.drained {
        p
    } else {
        ProgressState { in_flight: p.in_flight + 1, drained: true }
    }
}

/// The counters that the senders and receivers of one queue share.
#[derive(Debug)]
pub struct Progress {
    in_progress: usize,
    is_drained: bool,
}

impl View for Progress {
    type V = ProgressState;

    closed spec fn view(&self) -> ProgressState {
        ProgressState { in_flight: self.in_progress as nat, drained: self.is_drained }
    }
}

impl Progress {
    /// Nothing in flight; a fresh queue counts as drained.
    pub fn new() -> (r: Self)
        ensures
            r@ == (ProgressState { in_flight: 0, drained: true }),
    {
        Progress { in_progress: 0, is_drained: true }
    }

    /// Counts a message that is being sent.
    pub fn start(&mut self)
        requires
            old(self)@.in_flight < usize::MAX,
        ensures
            final(self)@ == started(old(self)@),
    {
        self.in_progress = self.in_progress + 1;
        self.is_drained = false;
    }

    /// Counts a message as done with; returns whether it was the last one in flight.
    pub fn finish(&mut self) -> (last: bool)
        requires
            old(self)@.in_flight > 0,
        ensures
            final(self)@ == finished(old(self)@),
            final(self)@.in_flight == old(self)@.in_flight - 1,
            final(self)@.drained == old(self)@.drained,
            last == (old(self)@.in_flight == 1),
    {
        let last = self.in_progress == 1;
        self.in_progress = self.in_progress - 1;
        last
    }

    /// Marks the queue drained unless it already is; returns whether this call
    /// did, in which case the `Drained` notice must be queued.
    pub fn claim_drained(&mut self) -> (claim: bool)
        requires
            !old(self)@.drained ==> old(self)@.in_flight < usize::MAX,
        ensures
            final(self)@ == claimed(old(self)@),
            claim == !old(self)@.drained,
    {
        if self.is_drained {
            false
        } else {
            self.is_drained = true;
            self.in_progress = self.in_progress + 1;
            true
        }
    }

    /// Returns the number of messages in flight: queued, stashed, or held by a receiver.
    pub fn in_progress(&self) -> (r: usize)
        ensures
            r == self@.in_flight,
    {
        self.in_progress
    }

    /// Returns whether the `Drained` notice went out since the last message was sent.
    pub fn is_drained(&self) -> (r: bool)
        ensures
            r == self@.drained,
    {
        self.is_drained
    }
}

impl Default for Progress {
    fn default() -> (r: Self)
        ensures
            r@ == (ProgressState { in_flight: 0, drained: true }),
    {
        Progress::new()
    }
}

} // verus!
