use vstd::prelude::*;
use vstd::multiset::Multiset;
use vstd::std_specs::cmp::PartialEqSpec;
use crate::message::Message;
use crate::mpmcpq::{drained_step, is_lowest, release_step, send_step, stash_step, sync_step, Notify};
use crate::progress::{claimed, started, ProgressState};

verus! {

broadcast use vstd::seq_lib::group_to_multiset_ensures, vstd::multiset::group_multiset_axioms;

/// The count of messages in flight agrees with where the messages are: `queued`
/// on the queue, `stashed` in the stashes of all threads, and `held` in the
/// receivers' guards.
pub open spec fn balanced<M>(
    p: ProgressState,
    queued: Multiset<Message<M>>,
    stashed: nat,
    held: nat,
) -> bool {
    p.in_flight == queued.len() + stashed + held
}

/// A new queue with new counters is balanced: nothing queued, stashed, held
/// or in flight.
pub proof fn lemma_initial_balance<M>()
    ensures
        balanced(
            ProgressState { in_flight: 0, drained: true },
            Multiset::<Message<M>>::empty(),
            0,
            0,
        ),
{
}

/// Sending with the queue at hand keeps the count in flight balanced: the
/// message and the sender's stash, of `s.len()` messages, end up queued;
/// `elsewhere` counts the messages in other threads' stashes.
pub proof fn lemma_send_keeps_balance<M>(
    q: Multiset<Message<M>>,
    p: ProgressState,
    s: Seq<Message<M>>,
    msg: Message<M>,
    q2: Multiset<Message<M>>,
    p2: ProgressState,
    s2: Seq<Message<M>>,
    n: Notify,
    elsewhere: nat,
    held: nat,
)
    requires
        balanced(p, q, s.len() + elsewhere, held),
        send_step(q, p, s, msg, q2, p2, s2, n),
    ensures
        balanced(p2, q2, s2.len() + elsewhere, held),
{
}

/// Stashing a message keeps the count in flight balanced.
pub proof fn lemma_stash_keeps_balance<M>(
    q: Multiset<Message<M>>,
    p: ProgressState,
    s: Seq<Message<M>>,
    msg: Message<M>,
    p2: ProgressState,
    s2: Seq<Message<M>>,
    elsewhere: nat,
    held: nat,
)
    requires
        balanced(p, q, s.len() + elsewhere, held),
        stash_step(p, s, msg, p2, s2),
    ensures
        balanced(p2, q, s2.len() + elsewhere, held),
{
}

/// Moving a stash onto the queue keeps the count in flight balanced.
pub proof fn lemma_sync_keeps_balance<M>(
    q: Multiset<Message<M>>,
    p: ProgressState,
    s: Seq<Message<M>>,
    q2: Multiset<Message<M>>,
    s2: Seq<Message<M>>,
    n: Notify,
    elsewhere: nat,
    held: nat,
)
    requires
        balanced(p, q, s.len() + elsewhere, held),
        sync_step(q, s, q2, s2, n),
    ensures
        balanced(p, q2, s2.len() + elsewhere, held),
{
}

/// Taking a message out into a guard keeps the count in flight balanced: the
/// message is then held.
pub proof fn lemma_receive_keeps_balance<M>(
    q: Multiset<Message<M>>,
    p: ProgressState,
    m: Message<M>,
    stashed: nat,
    held: nat,
)
    requires
        balanced(p, q, stashed, held),
        q.contains(m),
    ensures
        balanced(p, q.remove(m), stashed, held + 1),
{
}

/// Releasing a guard keeps the count in flight balanced, the `Drained` notice
/// that it may queue included.
pub proof fn lemma_release_keeps_balance<M>(
    q: Multiset<Message<M>>,
    p: ProgressState,
    q2: Multiset<Message<M>>,
    p2: ProgressState,
    n: Notify,
    stashed: nat,
    held: nat,
)
    requires
        balanced(p, q, stashed, held + 1),
        release_step(q, p, q2, p2, n),
    ensures
        balanced(p2, q2, stashed, held),
{
}

/// Once the queue is empty, nothing is stashed and the last guard is released,
/// a single `Drained` notice is queued and one receiver is woken, unless the
/// notice already went out since the last send.
pub proof fn lemma_last_release_drains<M>(
    q: Multiset<Message<M>>,
    p: ProgressState,
    q2: Multiset<Message<M>>,
    p2: ProgressState,
    n: Notify,
)
    requires
        balanced(p, q, 0, 1),
        q.len() == 0,
        release_step(q, p, q2, p2, n),
    ensures
        !p.drained ==> q2 == Multiset::<Message<M>>::empty().insert(Message::Drained)
            && n == Notify::One && p2 == (ProgressState { in_flight: 1, drained: true }),
        p.drained ==> q2 == q && n == Notify::Nobody && p2.in_flight == 0,
{
    assert(q =~= Multiset::<Message<M>>::empty());
}

/// While messages are still queued, stashed or held by other receivers,
/// releasing a guard queues no `Drained` notice.
pub proof fn lemma_no_drain_while_busy<M>(
    q: Multiset<Message<M>>,
    p: ProgressState,
    q2: Multiset<Message<M>>,
    p2: ProgressState,
    n: Notify,
    stashed: nat,
    held: nat,
)
    requires
        balanced(p, q, stashed, held + 1),
        q.len() + stashed + held > 0,
        release_step(q, p, q2, p2, n),
    ensures
        q2 == q,
        n == Notify::Nobody,
        p2.in_flight == p.in_flight - 1,
{
}

/// After a `Drained` notice went out, no other is queued until a message is
/// sent again: every release leaves the queue as it is.
pub proof fn lemma_drained_once<M>(
    q: Multiset<Message<M>>,
    p: ProgressState,
    q2: Multiset<Message<M>>,
    p2: ProgressState,
    n: Notify,
)
    requires
        p.drained,
        p.in_flight > 0,
        release_step(q, p, q2, p2, n),
    ensures
        q2 == q,
        n == Notify::Nobody,
        p2.drained,
{
}

/// Sending a message reopens the idle period: the next time the count of
/// messages in flight drops to zero, a `Drained` notice is queued again.
pub proof fn lemma_send_rearms_drained(p: ProgressState)
    ensures
        !started(p).drained,
        started(p).in_flight == p.in_flight + 1,
{
}

/// A send loses, duplicates and invents nothing, whether the queue was at hand
/// or not: the queue and the sender's stash together gain exactly the sent
/// message, and one more message is in flight.
pub proof fn lemma_send_conserves_messages<M>(
    q: Multiset<Message<M>>,
    p: ProgressState,
    s: Seq<Message<M>>,
    msg: Message<M>,
    q2: Multiset<Message<M>>,
    p2: ProgressState,
    s2: Seq<Message<M>>,
    n: Notify,
    at_hand: bool,
)
    requires
        at_hand ==> send_step(q, p, s, msg, q2, p2, s2, n),
        !at_hand ==> stash_step(p, s, msg, p2, s2) && q2 == q,
    ensures
        q2.add(s2.to_multiset()) == q.add(s.to_multiset()).insert(msg),
        p2.in_flight == p.in_flight + 1,
{
    if at_hand {
        assert(s2.to_multiset() =~= Multiset::<Message<M>>::empty());
        assert(q2.add(s2.to_multiset()) =~= q.add(s.to_multiset()).insert(msg));
    } else {
        assert(q2.add(s2.to_multiset()) =~= q.add(s.to_multiset()).insert(msg));
    }
}

/// A batched send either stashes the message (at most `batch_size` messages
/// were stashed) or hands it to a send (more were); either way the queue and
/// the stash together gain exactly that message and it is counted once.
pub proof fn lemma_batched_send_counts_once<M>(
    q: Multiset<Message<M>>,
    p: ProgressState,
    s: Seq<Message<M>>,
    msg: Message<M>,
    batch_size: nat,
    q2: Multiset<Message<M>>,
    p2: ProgressState,
    s2: Seq<Message<M>>,
    n: Notify,
)
    requires
        s.len() <= batch_size ==> stash_step(p, s, msg, p2, s2) && q2 == q,
        s.len() > batch_size ==> send_step(q, p, s, msg, q2, p2, s2, n),
    ensures
        q2.add(s2.to_multiset()) == q.add(s.to_multiset()).insert(msg),
        p2.in_flight == p.in_flight + 1,
        s.len() <= batch_size ==> s2.len() == s.len() + 1,
        s.len() > batch_size ==> s2.len() == 0,
{
    lemma_send_conserves_messages(q, p, s, msg, q2, p2, s2, n, s.len() > batch_size);
}

/// Two attempts in a row to send the `Drained` notice queue at most one: the
/// first queues one exactly when none went out yet, the second changes nothing.
pub proof fn lemma_drained_twice<M>(
    q: Multiset<Message<M>>,
    p: ProgressState,
    q2: Multiset<Message<M>>,
    p2: ProgressState,
    n2: Notify,
    q3: Multiset<Message<M>>,
    p3: ProgressState,
    n3: Notify,
)
    requires
        drained_step(q, p, q2, p2, n2),
        drained_step(q2, p2, q3, p3, n3),
    ensures
        !p.drained ==> q3 == q.insert(Message::Drained),
        p.drained ==> q3 == q,
        q3.count(Message::Drained) <= q.count(Message::Drained) + 1,
        q3 == q2,
        p3 == p2,
        n3 == Notify::Nobody,
        p3 == claimed(p),
{
}

/// Syncing a stash wakes receivers by how many messages it moved: nobody for
/// none, one receiver for one, every waiting receiver for two or more; the
/// queue grows by the stash's length.
pub proof fn lemma_sync_wakes_by_count<M>(
    q: Multiset<Message<M>>,
    s: Seq<Message<M>>,
    q2: Multiset<Message<M>>,
    s2: Seq<Message<M>>,
    n: Notify,
)
    requires
        sync_step(q, s, q2, s2, n),
    ensures
        s.len() == 0 ==> n == Notify::Nobody,
        s.len() == 1 ==> n == Notify::One,
        s.len() >= 2 ==> n == Notify::All,
        q2.len() == q.len() + s.len(),
        s2.len() == 0,
{
}

/// A send with the queue at hand wakes one receiver when the stash was empty,
/// and every waiting receiver when stashed messages went along with it; the
/// queue grows by the stash's length plus one.
pub proof fn lemma_send_wakes_by_stash<M>(
    q: Multiset<Message<M>>,
    p: ProgressState,
    s: Seq<Message<M>>,
    msg: Message<M>,
    q2: Multiset<Message<M>>,
    p2: ProgressState,
    s2: Seq<Message<M>>,
    n: Notify,
)
    requires
        send_step(q, p, s, msg, q2, p2, s2, n),
    ensures
        s.len() == 0 ==> n == Notify::One,
        s.len() >= 1 ==> n == Notify::All,
        q2.len() == q.len() + s.len() + 1,
        q2.contains(msg),
{
}

/// Releasing a message while others are still in flight changes neither the
/// queue nor the drained flag, wakes nobody, and leaves one message fewer in
/// flight.
pub proof fn lemma_release_keeps_drained_flag<M>(
    q: Multiset<Message<M>>,
    p: ProgressState,
    q2: Multiset<Message<M>>,
    p2: ProgressState,
    n: Notify,
)
    requires
        p.in_flight > 1,
        release_step(q, p, q2, p2, n),
    ensures
        p2.drained == p.drained,
        p2.in_flight == p.in_flight - 1,
        q2 == q,
        n == Notify::Nobody,
{
}

proof fn lemma_release_run_prefix<M>(
    qs: Seq<Multiset<Message<M>>>,
    ps: Seq<ProgressState>,
    ns: Seq<Notify>,
    i: int,
)
    requires
        qs.len() == ns.len() + 1,
        ps.len() == ns.len() + 1,
        ps[0].in_flight == ns.len(),
        !ps[0].drained,
        forall|j: int|
            0 <= j < ns.len() ==> release_step(qs[j], ps[j], qs[j + 1], ps[j + 1], #[trigger] ns[j]),
        0 <= i < ns.len(),
    ensures
        ps[i].in_flight == ns.len() - i,
        !ps[i].drained,
        qs[i] == qs[0],
        forall|j: int| 0 <= j < i ==> #[trigger] ns[j] == Notify::Nobody,
    decreases i,
{
    if i > 0 {
        lemma_release_run_prefix(qs, ps, ns, i - 1);
        assert(release_step(qs[i - 1], ps[i - 1], qs[i], ps[i], ns[i - 1]));
    }
}

/// Starting from a state where the notice is not sent yet and `k` messages are
/// in flight, releasing them one by one queues exactly one `Drained` notice:
/// nothing happens on the first `k - 1` releases, and the last one queues the
/// notice and wakes one receiver.
pub proof fn lemma_releasing_all_drains_once<M>(
    qs: Seq<Multiset<Message<M>>>,
    ps: Seq<ProgressState>,
    ns: Seq<Notify>,
)
    requires
        ns.len() > 0,
        qs.len() == ns.len() + 1,
        ps.len() == ns.len() + 1,
        ps[0].in_flight == ns.len(),
        !ps[0].drained,
        forall|j: int|
            0 <= j < ns.len() ==> release_step(qs[j], ps[j], qs[j + 1], ps[j + 1], #[trigger] ns[j]),
    ensures
        qs[ns.len() as int] == qs[0].insert(Message::Drained),
        ns[ns.len() - 1] == Notify::One,
        forall|j: int| 0 <= j < ns.len() - 1 ==> #[trigger] ns[j] == Notify::Nobody,
        ps[ns.len() as int] == (ProgressState { in_flight: 1, drained: true }),
{
    let k = ns.len() as int;
    lemma_release_run_prefix(qs, ps, ns, k - 1);
    assert(release_step(qs[k - 1], ps[k - 1], qs[k], ps[k], ns[k - 1]));
}

/// Two data messages are equal exactly when their priorities are; their data
/// is not compared.
pub proof fn lemma_data_messages_equal_by_priority<M>(a: M, pa: u64, b: M, pb: u64)
    ensures
        Message::Msg(a, pa).eq_spec(&Message::Msg(b, pb)) <==> pa == pb,
{
}

/// Message equality is symmetric, and `Drained` equals only `Drained`.
pub proof fn lemma_message_eq_symmetric<M>(x: Message<M>, y: Message<M>)
    ensures
        x.eq_spec(&y) == y.eq_spec(&x),
        x is Drained ==> (x.eq_spec(&y) <==> y is Drained),
{
}

/// For queueable messages, equality agrees with the order: two messages are
/// equal exactly when they compare as equal, that is when they rank alike.
pub proof fn lemma_eq_matches_order<M>(x: Message<M>, y: Message<M>)
    requires
        x.is_queueable(),
        y.is_queueable(),
    ensures
        x.eq_spec(&y) <==> crate::message::message_order(x, y) == Some(core::cmp::Ordering::Equal),
        x.eq_spec(&y) <==> x.rank() == y.rank(),
{
}

/// Two receives in a row come out in rank order: `Drained` before any data
/// message, data messages by ascending priority.
pub proof fn lemma_receive_order<M>(q: Multiset<Message<M>>, m1: Message<M>, m2: Message<M>)
    requires
        is_lowest(q, m1),
        is_lowest(q.remove(m1), m2),
    ensures
        m1.rank() <= m2.rank(),
{
    assert(q.remove(m1).contains(m2));
    assert(q.contains(m2));
}

/// A data message is received only when no message of lower priority and no
/// `Drained` notice is queued.
pub proof fn lemma_lowest_priority_first<M>(q: Multiset<Message<M>>, m: Message<M>, x: Message<M>)
    requires
        is_lowest(q, m),
        m is Msg,
        q.contains(x),
        x.is_queueable(),
    ensures
        x is Msg,
        m->1 <= x->1,
{
}

/// A queued `Drained` notice is received before every data message.
pub proof fn lemma_drained_first<M>(q: Multiset<Message<M>>, m: Message<M>)
    requires
        is_lowest(q, m),
        q.contains(Message::<M>::Drained),
        m.is_queueable(),
    ensures
        m is Drained,
{
}

/// A drained-notice attempt queues at most one message and wakes one receiver
/// exactly when it queues one.
pub proof fn lemma_drained_step_adds_at_most_one<M>(
    q: Multiset<Message<M>>,
    p: ProgressState,
    q2: Multiset<Message<M>>,
    p2: ProgressState,
    n: Notify,
)
    requires
        drained_step(q, p, q2, p2, n),
    ensures
        q2.len() == q.len() + (if n == Notify::One { 1int } else { 0int }),
        n == Notify::One || n == Notify::Nobody,
{
}

} // verus!

verus! {

/// The comparison of messages agrees with the order of receipt: of two
/// queueable messages, the greater is received first, equal ones rank alike.
pub proof fn lemma_order_matches_rank<M>(a: Message<M>, b: Message<M>)
    requires
        a.is_queueable(),
        b.is_queueable(),
    ensures
        crate::message::message_order(a, b) == Some(core::cmp::Ordering::Greater) <==> a.rank()
            < b.rank(),
        crate::message::message_order(a, b) == Some(core::cmp::Ordering::Equal) <==> a.rank()
            == b.rank(),
        crate::message::message_order(a, b) == Some(core::cmp::Ordering::Less) <==> a.rank()
            > b.rank(),
{
}

} // verus!
