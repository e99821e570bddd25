//! The intake queue: work items that were accepted from the broker and not
//! yet claimed by a worker. It is held in a `concurrent_queue::ConcurrentQueue`.

use vstd::prelude::*;
use concurrent_queue::ConcurrentQueue;
use crate::schema::JudgeConfig;

verus! {

broadcast use vstd::seq_lib::group_to_multiset_ensures;

/// Identifies one delivery: the broker channel it arrived on and its
/// delivery tag on that channel. Acknowledgments go to exactly this pair.
#[derive(Clone, Copy, Debug, PartialEq, Eq, Hash, Structural)]
pub struct DeliveryKey {
    pub channel: u16,
    pub delivery_tag: u64,
}

/// An accepted delivery waiting to be judged.
#[derive(Debug, PartialEq)]
pub struct WorkItem {
    pub channel: u16,
    pub delivery_tag: u64,
    pub config: JudgeConfig,
}

impl WorkItem {
    pub open spec fn key(self) -> DeliveryKey {
        DeliveryKey { channel: self.channel, delivery_tag: self.delivery_tag }
    }

    /// The key this item must be settled under.
    pub fn key_of(&self) -> (r: DeliveryKey)
        ensures
            r == self.key(),
    {
        DeliveryKey { channel: self.channel, delivery_tag: self.delivery_tag }
    }
}

/// The keys of a sequence of work items, in order.
pub open spec fn keys_of(items: Seq<WorkItem>) -> Seq<DeliveryKey> {
    items.map_values(|w: WorkItem| w.key())
}

#[verifier::external_type_specification]
#[verifier::external_body]
#[verifier::reject_recursive_types(T)]
pub struct ExConcurrentQueue<T>(ConcurrentQueue<T>);

/// The items a queue holds, oldest first.
pub uninterp spec fn queue_contents(q: ConcurrentQueue<WorkItem>) -> Seq<WorkItem>;

/// Whether a queue has been closed to further pushes.
pub uninterp spec fn queue_closed(q: ConcurrentQueue<WorkItem>) -> bool;

/// The bound a queue was made with; `None` for an unbounded queue.
pub uninterp spec fn queue_capacity(q: ConcurrentQueue<WorkItem>) -> Option<nat>;

/// Relies on ConcurrentQueue::unbounded: a new queue is unbounded, open and
/// empty.
#[verifier::external_body]
fn queue_unbounded() -> (r: ConcurrentQueue<WorkItem>)
    ensures
        queue_capacity(r) is None,
        queue_contents(r) == Seq::<WorkItem>::empty(),
        !queue_closed(r),
{
    ConcurrentQueue::unbounded()
}

/// Relies on ConcurrentQueue::push: it appends the item or fails, leaving
/// the queue as it was; on an unbounded queue it fails only when the queue
/// is closed. Exclusive access leaves no other party to change the queue
/// meanwhile.
#[verifier::external_body]
fn queue_push(q: &mut ConcurrentQueue<WorkItem>, item: WorkItem) -> (r: bool)
    ensures
        queue_closed(*final(q)) == queue_closed(*old(q)),
        queue_capacity(*final(q)) == queue_capacity(*old(q)),
        queue_capacity(*old(q)) is None ==> r == !queue_closed(*old(q)),
        r ==> queue_contents(*final(q)) == queue_contents(*old(q)).push(item),
        !r ==> queue_contents(*final(q)) == queue_contents(*old(q)),
{
    q.push(item).is_ok()
}

/// Relies on ConcurrentQueue::pop: it removes and returns the oldest item,
/// or fails when the queue is empty.
#[verifier::external_body]
fn queue_pop(q: &mut ConcurrentQueue<WorkItem>) -> (r: Option<WorkItem>)
    ensures
        queue_closed(*final(q)) == queue_closed(*old(q)),
        queue_capacity(*final(q)) == queue_capacity(*old(q)),
        queue_contents(*old(q)).len() == 0 ==> r is None,
        queue_contents(*old(q)).len() == 0 ==> queue_contents(*final(q)) == queue_contents(*old(q)),
        queue_contents(*old(q)).len() > 0 ==> r == Some(queue_contents(*old(q))[0]),
        queue_contents(*old(q)).len() > 0 ==> queue_contents(*final(q)) == queue_contents(*old(q)).drop_first(),
{
    q.pop().ok()
}

/// Relies on ConcurrentQueue::is_empty: true exactly when no item is held.
#[verifier::external_body]
fn queue_is_empty(q: &ConcurrentQueue<WorkItem>) -> (r: bool)
    ensures
        r == (queue_contents(*q).len() == 0),
{
    q.is_empty()
}

/// An unbounded FIFO of work items. Besides its contents it remembers, as
/// ghost state, every item ever pushed and every item ever popped.
pub struct IntakeQueue {
    inner: ConcurrentQueue<WorkItem>,
    pushed: Ghost<Seq<WorkItem>>,
    popped: Ghost<Seq<WorkItem>>,
}

impl View for IntakeQueue {
    type V = Seq<WorkItem>;

    closed spec fn view(&self) -> Seq<WorkItem> {
        queue_contents(self.inner)
    }
}

impl IntakeQueue {
    /// Every item pushed so far, in the order of the pushes.
    pub closed spec fn pushed(&self) -> Seq<WorkItem> {
        self.pushed@
    }

    /// Every item popped so far, in the order of the pops.
    pub closed spec fn popped(&self) -> Seq<WorkItem> {
        self.popped@
    }

    /// The queue is unbounded and open, and what it holds is exactly what was pushed and
    /// not yet popped, in order.
    pub closed spec fn wf(&self) -> bool {
        &&& queue_capacity(self.inner) is None
        &&& !queue_closed(self.inner)
        &&& self.pushed@ == self.popped@ + self@
    }

    pub fn new() -> (r: IntakeQueue)
        ensures
            r.wf(),
            r@ == Seq::<WorkItem>::empty(),
            r.pushed() == Seq::<WorkItem>::empty(),
            r.popped() == Seq::<WorkItem>::empty(),
    {
        let r = IntakeQueue {
            inner: queue_unbounded(),
            pushed: Ghost(Seq::empty()),
            popped: Ghost(Seq::empty()),
        };
        assert(r.pushed@ =~= r.popped@ + r@);
        r
    }

    /// Appends an item; pushing never blocks and never fails.
    pub fn push(&mut self, item: WorkItem)
        requires
            old(self).wf(),
        ensures
            final(self).wf(),
            final(self)@ == old(self)@.push(item),
            final(self).pushed() == old(self).pushed().push(item),
            final(self).popped() == old(self).popped(),
    {
        let ghost it = item;
        let pushed_ok = queue_push(&mut self.inner, item);
        proof {
            assert(pushed_ok);
            self.pushed@ = self.pushed@.push(it);
            assert(self.pushed@ =~= self.popped@ + self@);
        }
    }

    /// Removes the oldest item, or reports empty with `None`.
    pub fn pop(&mut self) -> (r: Option<WorkItem>)
        requires
            old(self).wf(),
        ensures
            final(self).wf(),
            final(self).pushed() == old(self).pushed(),
            old(self)@.len() == 0 ==> r is None,
            old(self)@.len() == 0 ==> final(self)@ == old(self)@,
            old(self)@.len() == 0 ==> final(self).popped() == old(self).popped(),
            old(self)@.len() > 0 ==> r == Some(old(self)@[0]),
            old(self)@.len() > 0 ==> final(self)@ == old(self)@.drop_first(),
            old(self)@.len() > 0 ==> final(self).popped() == old(self).popped().push(old(self)@[0]),
    {
        let ghost before = self@;
        let r = queue_pop(&mut self.inner);
        proof {
            if before.len() > 0 {
                self.popped@ = self.popped@.push(before[0]);
                assert(self.pushed@ =~= self.popped@ + self@) by {
                    assert(before =~= seq![before[0]] + before.drop_first());
                }
            }
        }
        r
    }

    pub fn is_empty(&self) -> (r: bool)
        requires
            self.wf(),
        ensures
            r == (self@.len() == 0),
    {
        queue_is_empty(&self.inner)
    }

    /// Nothing is lost and nothing is duplicated: the items ever pushed are,
    /// as a multiset, the items ever popped together with those still held.
    pub proof fn lemma_conserves_items(&self)
        requires
            self.wf(),
        ensures
            self.pushed() == self.popped() + self@,
            self.pushed().to_multiset() == self.popped().to_multiset().add(self@.to_multiset()),
    {
        vstd::seq_lib::lemma_multiset_commutative(self.popped@, self@);
    }
}

} // verus!
