use vstd::prelude::*;
use vstd::multiset::Multiset;
use crate::guard::ReceiveGuard;
use crate::message::Message;
use crate::progress::{claimed, finished, started, Progress, ProgressState};
use crate::stash::Stash;

verus! {

broadcast use vstd::seq_lib::group_to_multiset_ensures, vstd::multiset::group_multiset_axioms;

/// Whether `m` is one of the messages in `q` that is received first: no
/// message in `q` ranks lower.
pub open spec fn is_lowest<M>(q: Multiset<Message<M>>, m: Message<M>) -> bool {
    &&& q.contains(m)
    &&& forall|x: Message<M>| #[trigger] q.contains(x) ==> m.rank() <= x.rank()
}

/// Which of the threads that wait for a message are to be woken.
#[derive(PartialEq, Eq, Structural, Debug, Clone, Copy)]
pub enum Notify {
    /// Nobody: no message was added.
    Nobody,
    /// One waiting thread: one message was added.
    One,
    /// All waiting threads: several messages were added.
    All,
}

/// Whom to wake after `added` messages were put on the queue.
pub open spec fn wake_for(added: nat) -> Notify {
    if added == 0 {
        Notify::Nobody
    } else if added == 1 {
        Notify::One
    } else {
        Notify::All
    }
}

/// An attempt to queue the `Drained` notice, from queue `q` and counters `p`
/// to `q2` and `p2`, waking `n`: it is queued only when no notice went out yet.
pub open spec fn drained_step<M>(
    q: Multiset<Message<M>>,
    p: ProgressState,
    q2: Multiset<Message<M>>,
    p2: ProgressState,
    n: Notify,
) -> bool {
    &&& p2 == claimed(p)
    &&& if p.drained {
        q2 == q && n == Notify::Nobody
    } else {
        q2 == q.insert(Message::Drained) && n == Notify::One
    }
}

/// A receiver is done with a message: one message fewer in flight, and when it
/// was the last one the `Drained` notice is attempted.
pub open spec fn release_step<M>(
    q: Multiset<Message<M>>,
    p: ProgressState,
    q2: Multiset<Message<M>>,
    p2: ProgressState,
    n: Notify,
) -> bool {
    if p.in_flight == 1 {
        drained_step(q, finished(p), q2, p2, n)
    } else {
        q2 == q && p2 == finished(p) && n == Notify::Nobody
    }
}

/// Messages sent from stash contents `s` onto queue `q`: all of them are queued.
pub open spec fn sync_step<M>(
    q: Multiset<Message<M>>,
    s: Seq<Message<M>>,
    q2: Multiset<Message<M>>,
    s2: Seq<Message<M>>,
    n: Notify,
) -> bool {
    &&& q2 == q.add(s.to_multiset())
    &&& s2 == Seq::<Message<M>>::empty()
    &&& n == wake_for(s.len())
}

/// A message sent with the queue at hand: it is counted, the stash is emptied
/// onto the queue, and the message is queued.
pub open spec fn send_step<M>(
    q: Multiset<Message<M>>,
    p: ProgressState,
    s: Seq<Message<M>>,
    msg: Message<M>,
    q2: Multiset<Message<M>>,
    p2: ProgressState,
    s2: Seq<Message<M>>,
    n: Notify,
) -> bool {
    &&& p2 == started(p)
    &&& q2 == q.add(s.to_multiset()).insert(msg)
    &&& s2 == Seq::<Message<M>>::empty()
    &&& n == wake_for(s.len() + 1)
}

/// A message put on the stash: it is counted and waits there.
pub open spec fn stash_step<M>(
    p: ProgressState,
    s: Seq<Message<M>>,
    msg: Message<M>,
    p2: ProgressState,
    s2: Seq<Message<M>>,
) -> bool {
    &&& p2 == started(p)
    &&& s2 == s.push(msg)
}

/// A queue which orders messages by priority; the part of the shared state
/// that is guarded by the queue's lock.
#[derive(Debug)]
pub struct PriorityQueue<M> {
    heap: Vec<Message<M>>,
}

impl<M> View for PriorityQueue<M> {
    type V = Multiset<Message<M>>;

    closed spec fn view(&self) -> Multiset<Message<M>> {
        self.heap@.to_multiset()
    }
}

impl<M> PriorityQueue<M> {
    /// The messages are kept by descending rank, so the next one to be received
    /// is the last; no `Taken` placeholder is ever queued.
    pub closed spec fn wf(self) -> bool {
        &&& forall|i: int, j: int|
            0 <= i < j < self.heap@.len() ==> (#[trigger] self.heap@[i]).rank() >= (
            #[trigger] self.heap@[j]).rank()
        &&& forall|i: int| 0 <= i < self.heap@.len() ==> (#[trigger] self.heap@[i]).is_queueable()
    }

    /// Every queued message may stand in the queue.
    pub proof fn lemma_queued_are_queueable(self, m: Message<M>)
        requires
            self.wf(),
            self@.contains(m),
        ensures
            m.is_queueable(),
    {
        assert(self.heap@.contains(m));
    }

    /// Create a new, empty queue.
    pub fn new() -> (r: Self)
        ensures
            r.wf(),
            r@ == Multiset::<Message<M>>::empty(),
    {
        let r = PriorityQueue { heap: Vec::new() };
        assert(r.heap@.to_multiset() =~= Multiset::<Message<M>>::empty());
        r
    }

    /// Returns true when no message is queued.
    pub fn is_empty(&self) -> (r: bool)
        ensures
            r == (self@.len() == 0),
    {
        self.heap.is_empty()
    }

    /// Returns the number of queued messages.
    pub fn len(&self) -> (r: usize)
        ensures
            r == self@.len(),
    {
        self.heap.len()
    }

    /// Reserves capacity for at least `additional` more messages.
    pub fn reserve(&mut self, additional: usize)
        requires
            old(self).wf(),
        ensures
            final(self).wf(),
            final(self)@ == old(self)@,
    {
        self.heap.reserve(additional);
    }

    /// Puts a message on the queue at its place by rank; among messages of equal
    /// rank, earlier ones are received first.
    fn push(&mut self, msg: Message<M>)
        requires
            old(self).wf(),
            msg.is_queueable(),
        ensures
            final(self).wf(),
            final(self)@ == old(self)@.insert(msg),
    {
        let mut lo: usize = 0;
        let mut hi: usize = self.heap.len();
        while lo < hi
            invariant
                self.wf(),
                0 <= lo <= hi <= self.heap@.len(),
                forall|k: int| 0 <= k < lo ==> (#[trigger] self.heap@[k]).rank() > msg.rank(),
                forall|k: int|
                    hi <= k < self.heap@.len() ==> (#[trigger] self.heap@[k]).rank() <= msg.rank(),
            decreases hi - lo,
        {
            let mid = lo + (hi - lo) / 2;
            if msg.comes_before(&self.heap[mid]) {
                lo = mid + 1;
            } else {
                hi = mid;
            }
        }
        let ghost before = self.heap@;
        self.heap.insert(lo, msg);
        proof {
            let after = self.heap@;
            assert(after == before.insert(lo as int, msg));
            assert forall|i: int, j: int| 0 <= i < j < after.len() implies (#[trigger] after[i]).rank()
                >= (#[trigger] after[j]).rank() by {
                if j < lo {
                } else if j == lo {
                } else if i < lo {
                    assert(after[j] == before[j - 1]);
                } else if i == lo {
                    assert(after[j] == before[j - 1]);
                } else {
                    assert(after[i] == before[i - 1]);
                    assert(after[j] == before[j - 1]);
                }
            }
            assert forall|i: int| 0 <= i < after.len() implies (#[trigger] after[i]).is_queueable() by {
                if i > lo {
                    assert(after[i] == before[i - 1]);
                }
            }
        }
    }

    /// Takes out a message of lowest rank, if any is queued.
    fn pop(&mut self) -> (r: Option<Message<M>>)
        requires
            old(self).wf(),
        ensures
            final(self).wf(),
            old(self)@.len() == 0 ==> r is None && final(self)@ == old(self)@,
            old(self)@.len() > 0 ==> (r matches Some(m) && is_lowest(old(self)@, m)
                && m.is_queueable() && final(self)@ == old(self)@.remove(m)),
    {
        let ghost before = self.heap@;
        let r = self.heap.pop();
        proof {
            if before.len() > 0 {
                let m = before.last();
                assert(before == self.heap@.push(m));
                assert forall|x: Message<M>| #[trigger] before.to_multiset().contains(x) implies m.rank()
                    <= x.rank() by {
                    assert(before.contains(x));
                    let k = choose|k: int| 0 <= k < before.len() && before[k] == x;
                    if k < before.len() - 1 {
                        assert(before[k].rank() >= before[before.len() - 1].rank());
                    }
                }
                assert(before.contains(m)) by {
                    assert(before[before.len() - 1] == m);
                }
                assert(self.heap@.to_multiset() =~= before.to_multiset().remove(m));
            }
        }
        r
    }

    /// Sends the `Drained` notice unless it was already sent for this idle period.
    pub(crate) fn send_drained(&mut self, progress: &mut Progress) -> (n: Notify)
        requires
            old(self).wf(),
            !old(progress)@.drained ==> old(progress)@.in_flight < usize::MAX,
        ensures
            final(self).wf(),
            drained_step(old(self)@, old(progress)@, final(self)@, final(progress)@, n),
    {
        if progress.claim_drained() {
            self.push(Message::Drained);
            Notify::One
        } else {
            Notify::Nobody
        }
    }

    /// What dropping a `ReceiveGuard` does: the guarded message is done with, and
    /// when it was the last one in flight the `Drained` notice is queued. The
    /// guard's message is handed back.
    pub fn release_guard(&mut self, progress: &mut Progress, guard: ReceiveGuard<M>) -> (r: (
        Message<M>,
        Notify,
    ))
        requires
            old(self).wf(),
            old(progress)@.in_flight > 0,
        ensures
            final(self).wf(),
            r.0 == guard@,
            release_step(old(self)@, old(progress)@, final(self)@, final(progress)@, r.1),
    {
        let n = if progress.finish() {
            self.send_drained(progress)
        } else {
            Notify::Nobody
        };
        (guard.unwrap_message(), n)
    }

    /// Moves all messages from the stash to the queue and empties the stash.
    pub fn sync(&mut self, stash: &mut Stash<M>) -> (n: Notify)
        requires
            old(self).wf(),
            old(stash).wf(),
        ensures
            final(self).wf(),
            final(stash).wf(),
            final(stash).attached() == old(stash).attached(),
            sync_step(old(self)@, old(stash)@, final(self)@, final(stash)@, n),
            old(stash)@.len() == 0 ==> n == Notify::Nobody,
            old(stash)@.len() == 1 ==> n == Notify::One,
            old(stash)@.len() >= 2 ==> n == Notify::All,
    {
        let n = if stash.len() == 0 {
            Notify::Nobody
        } else if stash.len() == 1 {
            Notify::One
        } else {
            Notify::All
        };
        let taken = stash.take_all();
        let ghost stashed = taken@;
        let ghost start = self@;
        for m in it: taken
            invariant
                self.wf(),
                it.seq() == stashed,
                forall|i: int| 0 <= i < stashed.len() ==> (#[trigger] stashed[i]) is Msg,
                self@ == start.add(stashed.take(it.index() as int).to_multiset()),
        {
            proof {
                assert(stashed.take(it.index() + 1) == stashed.take(it.index() as int).push(m));
            }
            self.push(m);
        }
        proof {
            assert(stashed.take(stashed.len() as int) == stashed);
        }
        n
    }

    /// Pushes a message with its priority onto the queue, which is at hand
    /// (the lock on it was got without waiting); the stash is emptied onto the
    /// queue first.
    pub fn send(&mut self, progress: &mut Progress, entry: M, prio: u64, stash: &mut Stash<M>) -> (n:
        Notify)
        requires
            old(self).wf(),
            old(stash).wf(),
            old(progress)@.in_flight < usize::MAX,
        ensures
            final(self).wf(),
            final(stash).wf(),
            final(stash).attached() == old(stash).attached(),
            send_step(
                old(self)@,
                old(progress)@,
                old(stash)@,
                Message::Msg(entry, prio),
                final(self)@,
                final(progress)@,
                final(stash)@,
                n,
            ),
            old(stash)@.len() == 0 ==> n == Notify::One,
            old(stash)@.len() > 0 ==> n == Notify::All,
    {
        progress.start();
        let stashed = self.sync(stash);
        self.push(Message::Msg(entry, prio));
        match stashed {
            Notify::Nobody => Notify::One,
            _ => Notify::All,
        }
    }

    /// Pushes a message with its priority onto the queue after waiting for the
    /// lock on it; the stash is emptied onto the queue first.
    pub fn send_sync(&mut self, progress: &mut Progress, entry: M, prio: u64, stash: &mut Stash<M>) -> (n:
        Notify)
        requires
            old(self).wf(),
            old(stash).wf(),
            old(progress)@.in_flight < usize::MAX,
        ensures
            final(self).wf(),
            final(stash).wf(),
            final(stash).attached() == old(stash).attached(),
            send_step(
                old(self)@,
                old(progress)@,
                old(stash)@,
                Message::Msg(entry, prio),
                final(self)@,
                final(progress)@,
                final(stash)@,
                n,
            ),
            old(stash)@.len() == 0 ==> n == Notify::One,
            old(stash)@.len() > 0 ==> n == Notify::All,
    {
        self.send(progress, entry, prio, stash)
    }

    /// Pushes a message onto the stash without touching the queue; this is also
    /// what a send does while the queue is locked by another thread.
    pub fn send_stash(progress: &mut Progress, entry: M, prio: u64, stash: &mut Stash<M>)
        requires
            old(stash).wf(),
            old(progress)@.in_flight < usize::MAX,
        ensures
            final(stash).wf(),
            final(stash).attached() == old(stash).attached(),
            stash_step(
                old(progress)@,
                old(stash)@,
                Message::Msg(entry, prio),
                final(progress)@,
                final(stash)@,
            ),
    {
        progress.start();
        stash.push(Message::Msg(entry, prio));
    }

    /// Collects messages on the stash until it holds more than `batch_size`:
    /// while it does not, the message is stashed and `None` is returned; once it
    /// does, nothing is changed and the message is handed back, to be sent with
    /// `send`.
    pub fn send_batched(
        progress: &mut Progress,
        entry: M,
        prio: u64,
        batch_size: usize,
        stash: &mut Stash<M>,
    ) -> (r: Option<(M, u64)>)
        requires
            old(stash).wf(),
            old(progress)@.in_flight < usize::MAX,
        ensures
            final(stash).wf(),
            final(stash).attached() == old(stash).attached(),
            old(stash)@.len() <= batch_size ==> r is None && stash_step(
                old(progress)@,
                old(stash)@,
                Message::Msg(entry, prio),
                final(progress)@,
                final(stash)@,
            ),
            old(stash)@.len() > batch_size ==> r == Some((entry, prio)) && final(progress)@ == old(
                progress,
            )@ && final(stash)@ == old(stash)@,
    {
        if stash.len() <= batch_size {
            Self::send_stash(progress, entry, prio, stash);
            None
        } else {
            Some((entry, prio))
        }
    }

    /// Takes the message received first out of a non-empty queue and wraps it in
    /// a guard; it stays in flight until the guard is released.
    pub fn recv_guard(&mut self) -> (g: ReceiveGuard<M>)
        requires
            old(self).wf(),
            old(self)@.len() > 0,
        ensures
            final(self).wf(),
            is_lowest(old(self)@, g@),
            g@.is_queueable(),
            final(self)@ == old(self)@.remove(g@),
    {
        let m = self.pop();
        match m {
            Some(msg) => ReceiveGuard::new(msg),
            None => ReceiveGuard::new(Message::Taken),
        }
    }

    /// Takes the message received first out of the queue and wraps it in a guard;
    /// `None` when no message is queued.
    pub fn try_recv_guard(&mut self) -> (r: Option<ReceiveGuard<M>>)
        requires
            old(self).wf(),
        ensures
            final(self).wf(),
            old(self)@.len() == 0 ==> r is None && final(self)@ == old(self)@,
            old(self)@.len() > 0 ==> (r matches Some(g) && is_lowest(old(self)@, g@)
                && g@.is_queueable() && final(self)@ == old(self)@.remove(g@)),
    {
        match self.pop() {
            Some(msg) => Some(ReceiveGuard::new(msg)),
            None => None,
        }
    }

    /// Takes the message received first out of a non-empty queue; the receiver is
    /// done with it at once, so when it was the last one in flight the `Drained`
    /// notice is queued.
    pub fn recv(&mut self, progress: &mut Progress) -> (r: (Message<M>, Notify))
        requires
            old(self).wf(),
            old(self)@.len() > 0,
            old(progress)@.in_flight > 0,
        ensures
            final(self).wf(),
            is_lowest(old(self)@, r.0),
            r.0.is_queueable(),
            release_step(old(self)@.remove(r.0), old(progress)@, final(self)@, final(progress)@, r.1),
    {
        let g = self.recv_guard();
        self.release_guard(progress, g)
    }

    /// Like `recv`, but returns `None`, and changes nothing, when no message is queued.
    pub fn try_recv(&mut self, progress: &mut Progress) -> (r: (Option<Message<M>>, Notify))
        requires
            old(self).wf(),
            old(self)@.len() > 0 ==> old(progress)@.in_flight > 0,
        ensures
            final(self).wf(),
            old(self)@.len() == 0 ==> r.0 is None && r.1 == Notify::Nobody && final(self)@ == old(
                self,
            )@ && final(progress)@ == old(progress)@,
            old(self)@.len() > 0 ==> (r.0 matches Some(m) && is_lowest(old(self)@, m)
                && m.is_queueable() && release_step(
                old(self)@.remove(m),
                old(progress)@,
                final(self)@,
                final(progress)@,
                r.1,
            )),
    {
        if self.is_empty() {
            (None, Notify::Nobody)
        } else {
            let (m, n) = self.recv(progress);
            (Some(m), n)
        }
    }
}

} // verus!
