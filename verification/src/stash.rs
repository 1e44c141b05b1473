use vstd::prelude::*;
use crate::message::Message;

verus! {

/// A thread's private store of messages that could not be put on the
/// queue at once; they are moved to the queue once it is free.
pub struct Stash<M> {
    msgs: Vec<Message<M>>,
    attached: bool,
}

impl<M> View for Stash<M> {
    type V = Seq<Message<M>>;

    closed spec fn view(&self) -> Seq<Message<M>> {
        self.msgs@
    }
}

/// Vec::capacity: std documents it as the number of elements the vector
/// holds without reallocating, which is never less than its length; and a
/// vector never allocates more than `isize::MAX` bytes, so for elements that
/// take memory the capacity times their size stays within that bound. How
/// much is allocated beyond the length is the allocator's choice and is left
/// unsaid.
#[verifier::external_body]
fn vec_capacity<T>(v: &Vec<T>) -> (cap: usize)
    ensures
        cap >= v@.len(),
        vstd::layout::size_of::<T>() > 0 ==> cap * vstd::layout::size_of::<T>() <= isize::MAX,
{
    v.capacity()
}

impl<M> Stash<M> {
    /// Holds only data messages.
    pub open spec fn wf(self) -> bool {
        forall|i: int| 0 <= i < self@.len() ==> (#[trigger] self@[i]) is Msg
    }

    /// Whether the stash belongs to a queue, to which its messages go when it is dropped.
    pub closed spec fn attached(self) -> bool {
        self.attached
    }

    /// Creates an empty stash tied to a queue: messages left in it when it is
    /// dropped are sent to that queue.
    pub fn new() -> (r: Self)
        ensures
            r@ == Seq::<Message<M>>::empty(),
            r.attached(),
    {
        Stash { msgs: Vec::new(), attached: true }
    }

    /// Creates an empty stash tied to no queue: messages left in it when it is
    /// dropped are discarded.
    pub fn without_priority_queue() -> (r: Self)
        ensures
            r@ == Seq::<Message<M>>::empty(),
            !r.attached(),
    {
        Stash { msgs: Vec::new(), attached: false }
    }

    /// Returns whether messages left at drop time go to a queue.
    pub fn has_priority_queue(&self) -> (r: bool)
        ensures
            r == self.attached(),
    {
        self.attached
    }

    /// Returns true when the stash contains no messages.
    pub fn is_empty(&self) -> (r: bool)
        ensures
            r == (self@.len() == 0),
    {
        self.msgs.is_empty()
    }

    /// Returns the number of messages in the stash.
    pub fn len(&self) -> (r: usize)
        ensures
            r == self@.len(),
    {
        self.msgs.len()
    }

    /// Hands out all stashed messages, in the order they were stashed, and
    /// leaves the stash empty.
    pub(crate) fn take_all(&mut self) -> (r: Vec<Message<M>>)
        ensures
            r@ == old(self)@,
            final(self)@ == Seq::<Message<M>>::empty(),
            final(self).attached() == old(self).attached(),
    {
        let mut r: Vec<Message<M>> = Vec::new();
        std::mem::swap(&mut r, &mut self.msgs);
        r
    }

    /// Appends a message to the stash.
    pub(crate) fn push(&mut self, msg: Message<M>)
        ensures
            final(self)@ == old(self)@.push(msg),
            final(self).attached() == old(self).attached(),
    {
        self.msgs.push(msg);
    }

    /// Returns the number of messages the stash can hold without reallocating.
    pub fn capacity(&self) -> (r: usize)
        ensures
            r >= self@.len(),
            vstd::layout::size_of::<Message<M>>() > 0 ==> r * vstd::layout::size_of::<Message<M>>()
                <= isize::MAX,
            vstd::layout::size_of::<Message<M>>() > 0 ==> r <= isize::MAX,
    {
        let r = vec_capacity(&self.msgs);
        proof {
            let size = vstd::layout::size_of::<Message<M>>();
            if size > 0 {
                assert(r <= r * size) by (nonlinear_arith)
                    requires
                        size > 0,
                ;
            }
        }
        r
    }
}

} // verus!
