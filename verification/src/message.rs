use vstd::prelude::*;
use core::cmp::Ordering;

verus! {

/// A message as it is stored in and received from the queue.
#[derive(Debug, Clone, Copy)]
pub enum Message<M> {
    /// Message with data `M` and its priority; lower priorities are received first.
    Msg(M, u64),
    /// The queue got empty and no worker holds a message any more.
    Drained,
    /// What is left in a guard once its message was taken out; never queued.
    Taken,
}

impl<M> Message<M> {
    /// The order in which queued messages are received: the message of lowest
    /// rank comes out first. `Drained` ranks below every data message.
    pub open spec fn rank(self) -> int {
        match self {
            Message::Msg(_, prio) => prio as int,
            Message::Drained => -1,
            Message::Taken => -2,
        }
    }

    /// Whether this message may stand in the queue (`Taken` may not).
    pub open spec fn is_queueable(self) -> bool {
        !(self is Taken)
    }

    /// Returns a reference to the data of the message.
    pub fn message(&self) -> (r: Option<&M>)
        ensures
            match *self {
                Message::Msg(m, _) => r == Some(&m),
                _ => r is None,
            },
    {
        match self {
            Message::Msg(msg, _) => Some(msg),
            _ => None,
        }
    }

    /// Returns a reference to the priority of the message.
    pub fn priority(&self) -> (r: Option<&u64>)
        ensures
            match *self {
                Message::Msg(_, p) => r == Some(&p),
                _ => r is None,
            },
    {
        match self {
            Message::Msg(_, prio) => Some(prio),
            _ => None,
        }
    }

    /// Returns `true` when this is the notice that the queue is drained.
    pub fn is_drained(&self) -> (r: bool)
        ensures
            r == (*self is Drained),
    {
        match self {
            Message::Drained => true,
            _ => false,
        }
    }

    /// Whether `self` is received before `other` when both are queued:
    /// `Drained` first, then data messages by ascending priority.
    pub fn comes_before(&self, other: &Self) -> (r: bool)
        ensures
            r == (self.rank() < other.rank()),
    {
        match (self, other) {
            (Message::Msg(_, a), Message::Msg(_, b)) => *a < *b,
            (Message::Drained, Message::Msg(_, _)) => true,
            (Message::Taken, Message::Msg(_, _)) => true,
            (Message::Taken, Message::Drained) => true,
            _ => false,
        }
    }
}

impl<M> PartialEq for Message<M> {
    fn eq(&self, other: &Self) -> (r: bool) {
        match (self, other) {
            (Message::Msg(_, a), Message::Msg(_, b)) => *a == *b,
            (Message::Drained, Message::Drained) => true,
            (Message::Taken, Message::Taken) => true,
            _ => false,
        }
    }
}

impl<M> vstd::std_specs::cmp::PartialEqSpecImpl for Message<M> {
    open spec fn obeys_eq_spec() -> bool {
        true
    }

    /// Two messages are equal when they are of one kind and, for data
    /// messages, of equal priority; the data is not compared.
    open spec fn eq_spec(&self, other: &Self) -> bool {
        match (*self, *other) {
            (Message::Msg(_, a), Message::Msg(_, b)) => a == b,
            (Message::Drained, Message::Drained) => true,
            (Message::Taken, Message::Taken) => true,
            _ => false,
        }
    }
}

impl<M> Eq for Message<M> {}

/// How two messages compare: a message that is received earlier is the
/// greater one, so that a max-first heap hands it out first.
pub open spec fn message_order<M>(a: Message<M>, b: Message<M>) -> Option<Ordering> {
    match (a, b) {
        (Message::Msg(_, x), Message::Msg(_, y)) => if x < y {
            Some(Ordering::Greater)
        } else if x == y {
            Some(Ordering::Equal)
        } else {
            Some(Ordering::Less)
        },
        (Message::Drained, Message::Drained) => Some(Ordering::Equal),
        (Message::Drained, _) => Some(Ordering::Greater),
        (_, Message::Drained) => Some(Ordering::Less),
        _ => None,
    }
}

impl<M> PartialOrd for Message<M> {
    fn partial_cmp(&self, other: &Self) -> (r: Option<Ordering>) {
        match (self, other) {
            (Message::Msg(_, x), Message::Msg(_, y)) => if *x < *y {
                Some(Ordering::Greater)
            } else if *x == *y {
                Some(Ordering::Equal)
            } else {
                Some(Ordering::Less)
            },
            (Message::Drained, Message::Drained) => Some(Ordering::Equal),
            (Message::Drained, _) => Some(Ordering::Greater),
            (_, Message::Drained) => Some(Ordering::Less),
            _ => None,
        }
    }
}

impl<M> vstd::std_specs::cmp::PartialOrdSpecImpl for Message<M> {
    open spec fn obeys_partial_cmp_spec() -> bool {
        true
    }

    /// `Taken` is less than `Drained` and compares with nothing else.
    open spec fn partial_cmp_spec(&self, other: &Self) -> Option<Ordering> {
        message_order(*self, *other)
    }
}

impl<M> Default for Message<M> {
    fn default() -> (r: Self)
        ensures
            r is Taken,
    {
        Message::Taken
    }
}

} // verus!
