//! The pipeline shared by the delivery router and the worker pool: it owns
//! the intake queue and the admission signal, tracks which deliveries are
//! being judged, and decides every terminal broker call.

use vstd::prelude::*;
use vstd::multiset::Multiset;
use crate::intake::{DeliveryKey, IntakeQueue, WorkItem, keys_of};
use crate::schema::{JudgeConfig, JudgeResult};
use crate::signal::AdmissionSignal;

verus! {

broadcast use vstd::seq_lib::group_to_multiset_ensures, vstd::multiset::group_multiset_axioms;

/// The terminal broker call for one delivery.
#[derive(Clone, Copy, Debug, PartialEq, Eq, Structural)]
pub enum Resolution {
    /// Judged: acknowledge.
    Ack,
    /// The judge failed: negatively acknowledge, so the broker may redeliver.
    Nack,
    /// Malformed: discard without requeueing.
    Reject,
}

/// One terminal broker call: which delivery, and how it is resolved.
#[derive(Clone, Copy, Debug, PartialEq, Eq, Structural)]
pub struct Settlement {
    pub key: DeliveryKey,
    pub resolution: Resolution,
}

/// How a judge outcome is settled: success is acknowledged, failure is
/// negatively acknowledged.
pub open spec fn resolution_of(judged: Result<JudgeResult, String>) -> Resolution {
    if judged is Ok {
        Resolution::Ack
    } else {
        Resolution::Nack
    }
}

pub fn resolution_for(judged: &Result<JudgeResult, String>) -> (r: Resolution)
    ensures
        r == resolution_of(*judged),
{
    match judged {
        Ok(_) => Resolution::Ack,
        Err(_) => Resolution::Nack,
    }
}

/// The size of the worker pool for a configured worker count: the count
/// itself when it is positive; no pool otherwise. The configured count is
/// the one source of the pool size: as many workers are started, and
/// `Pipeline::claim` bounds the items judged at once by it. The admission
/// signal stays a wake-up count and limits nothing.
pub fn pool_size_from(configured: i32) -> (r: Option<usize>)
    ensures
        configured > 0 ==> r == Some(configured as usize),
        configured <= 0 ==> r is None,
{
    if configured > 0 {
        Some(configured as usize)
    } else {
        None
    }
}

proof fn lemma_keys_of_concat(a: Seq<WorkItem>, b: Seq<WorkItem>)
    ensures
        keys_of(a + b) == keys_of(a) + keys_of(b),
{
    assert(keys_of(a + b) =~= keys_of(a) + keys_of(b));
}

proof fn lemma_keys_of_push(a: Seq<WorkItem>, w: WorkItem)
    ensures
        keys_of(a.push(w)) == keys_of(a).push(w.key()),
{
    assert(keys_of(a.push(w)) =~= keys_of(a).push(w.key()));
}

/// Where `key` first stands in `keys`, if anywhere.
fn position_of(keys: &Vec<DeliveryKey>, key: DeliveryKey) -> (r: Option<usize>)
    ensures
        r is None ==> !keys@.contains(key),
        r matches Some(i) ==> i < keys@.len() && keys@[i as int] == key,
{
    let mut i: usize = 0;
    while i < keys.len()
        invariant
            i <= keys@.len(),
            forall|j: int| 0 <= j < i ==> keys@[j] != key,
        decreases keys@.len() - i,
    {
        if keys[i] == key {
            return Some(i);
        }
        i = i + 1;
    }
    None
}

pub struct Pipeline {
    queue: IntakeQueue,
    signal: AdmissionSignal,
    pool_size: usize,
    in_flight: Vec<DeliveryKey>,
    settled: Ghost<Multiset<DeliveryKey>>,
    rejected: Ghost<Seq<DeliveryKey>>,
}

impl Pipeline {
    /// Items accepted and not yet claimed, oldest first.
    pub closed spec fn pending(&self) -> Seq<WorkItem> {
        self.queue@
    }

    /// Every item ever accepted into the intake queue, in order.
    pub closed spec fn accepted(&self) -> Seq<WorkItem> {
        self.queue.pushed()
    }

    /// Every item ever claimed by a worker, in the order of the claims.
    pub closed spec fn claimed(&self) -> Seq<WorkItem> {
        self.queue.popped()
    }

    /// Keys of the items that workers have claimed and not yet settled.
    pub closed spec fn in_flight(&self) -> Seq<DeliveryKey> {
        self.in_flight@
    }

    /// Keys of accepted items that were acknowledged or negatively
    /// acknowledged, with multiplicity.
    pub closed spec fn settled(&self) -> Multiset<DeliveryKey> {
        self.settled@
    }

    /// Keys of deliveries that were rejected, in order.
    pub closed spec fn rejected(&self) -> Seq<DeliveryKey> {
        self.rejected@
    }

    /// The number of workers; at most this many items are judged at once.
    pub closed spec fn pool_size(&self) -> nat {
        self.pool_size as nat
    }

    /// The admission signal's count.
    pub closed spec fn admissions(&self) -> nat {
        self.signal.count()
    }

    /// Every item taken off the intake queue is either in flight or settled,
    /// and no more items are in flight than there are workers.
    pub closed spec fn wf(&self) -> bool {
        &&& self.queue.wf()
        &&& self.in_flight@.len() <= self.pool_size
        &&& keys_of(self.queue.popped()).to_multiset() == self.in_flight@.to_multiset().add(
            self.settled@,
        )
    }

    /// An empty pipeline for a pool of `pool_size` workers.
    pub fn new(pool_size: usize) -> (r: Pipeline)
        ensures
            r.wf(),
            r.pool_size() == pool_size,
            r.pending() == Seq::<WorkItem>::empty(),
            r.accepted() == Seq::<WorkItem>::empty(),
            r.claimed() == Seq::<WorkItem>::empty(),
            r.in_flight() == Seq::<DeliveryKey>::empty(),
            r.settled() == Multiset::<DeliveryKey>::empty(),
            r.rejected() == Seq::<DeliveryKey>::empty(),
            r.admissions() == 0,
    {
        let r = Pipeline {
            queue: IntakeQueue::new(),
            signal: AdmissionSignal::new(),
            pool_size,
            in_flight: Vec::new(),
            settled: Ghost(Multiset::empty()),
            rejected: Ghost(Seq::empty()),
        };
        assert(keys_of(r.queue.popped()) =~= Seq::<DeliveryKey>::empty());
        assert(r.in_flight@ =~= Seq::<DeliveryKey>::empty());
        assert(Seq::<DeliveryKey>::empty().to_multiset() =~= Multiset::empty());
        assert(r.in_flight@.to_multiset().add(r.settled@) =~= Multiset::empty());
        r
    }

    pub fn pool_size_of(&self) -> (r: usize)
        ensures
            r == self.pool_size(),
    {
        self.pool_size
    }

    /// The number of items in flight.
    pub fn busy(&self) -> (r: usize)
        ensures
            r == self.in_flight().len(),
    {
        self.in_flight.len()
    }

    /// Whether no item waits in the intake queue.
    pub fn is_idle(&self) -> (r: bool)
        requires
            self.wf(),
        ensures
            r == (self.pending().len() == 0),
    {
        self.queue.is_empty()
    }

    /// Routes one delivery. `decoded` is the payload decoded as a judge
    /// request, or `None` where it was not text or did not match the schema.
    /// A malformed delivery is rejected at once and never queued. A decoded
    /// one is queued unchanged and announced on the admission signal; its
    /// settlement is left to the worker that claims it.
    pub fn on_delivery(&mut self, channel: u16, delivery_tag: u64, decoded: Option<
        JudgeConfig,
    >) -> (r: Option<Settlement>)
        requires
            old(self).wf(),
        ensures
            final(self).wf(),
            final(self).pool_size() == old(self).pool_size(),
            final(self).in_flight() == old(self).in_flight(),
            final(self).settled() == old(self).settled(),
            final(self).claimed() == old(self).claimed(),
            decoded is None ==> r == Some(
                (Settlement {
                    key: DeliveryKey { channel, delivery_tag },
                    resolution: Resolution::Reject,
                }),
            ),
            decoded is None ==> final(self).pending() == old(self).pending(),
            decoded is None ==> final(self).accepted() == old(self).accepted(),
            decoded is None ==> final(self).admissions() == old(self).admissions(),
            decoded is None ==> final(self).rejected() == old(self).rejected().push(
                (DeliveryKey { channel, delivery_tag }),
            ),
            decoded is Some ==> r is None,
            decoded is Some ==> final(self).pending() == old(self).pending().push(
                (WorkItem { channel, delivery_tag, config: decoded->Some_0 }),
            ),
            decoded is Some ==> final(self).accepted() == old(self).accepted().push(
                (WorkItem { channel, delivery_tag, config: decoded->Some_0 }),
            ),
            decoded is Some ==> final(self).rejected() == old(self).rejected(),
            decoded is Some && old(self).admissions() < u64::MAX ==> final(self).admissions()
                == old(self).admissions() + 1,
            decoded is Some && old(self).admissions() == u64::MAX ==> final(self).admissions()
                == old(self).admissions(),
    {
        match decoded {
            Some(config) => {
                self.queue.push(WorkItem { channel, delivery_tag, config });
                self.signal.release();
                None
            },
            None => {
                let key = DeliveryKey { channel, delivery_tag };
                proof {
                    self.rejected@ = self.rejected@.push(key);
                }
                Some(Settlement { key, resolution: Resolution::Reject })
            },
        }
    }

    /// Every accepted delivery is accounted for exactly once: as pending, as
    /// in flight, or as settled. So no accepted delivery is ever settled more
    /// often than it was accepted, and once nothing is pending or in flight,
    /// every accepted delivery has been acknowledged or negatively
    /// acknowledged exactly once.
    pub proof fn lemma_settled_exactly_once(&self)
        requires
            self.wf(),
        ensures
            keys_of(self.accepted()).to_multiset() == keys_of(self.pending()).to_multiset().add(
                self.in_flight().to_multiset(),
            ).add(self.settled()),
            forall|k: DeliveryKey| #[trigger]
                self.settled().count(k) <= keys_of(self.accepted()).to_multiset().count(k),
            self.pending().len() == 0 && self.in_flight().len() == 0 ==> self.settled()
                == keys_of(self.accepted()).to_multiset(),
    {
        self.queue.lemma_conserves_items();
        lemma_keys_of_concat(self.queue.popped(), self.queue@);
        vstd::seq_lib::lemma_multiset_commutative(keys_of(self.queue.popped()), keys_of(self.queue@));
        assert(keys_of(self.accepted()).to_multiset() =~= keys_of(self.pending()).to_multiset().add(
            self.in_flight().to_multiset(),
        ).add(self.settled()));
        if self.pending().len() == 0 && self.in_flight().len() == 0 {
            assert(keys_of(self.pending()) =~= Seq::<DeliveryKey>::empty());
            assert(self.in_flight() =~= Seq::<DeliveryKey>::empty());
            assert(Seq::<DeliveryKey>::empty().to_multiset() =~= Multiset::empty());
            assert(self.settled() =~= keys_of(self.accepted()).to_multiset());
        }
    }

    /// The intake queue loses and duplicates nothing: the items ever
    /// accepted are, as a multiset, the items claimed by workers together
    /// with those still pending.
    pub proof fn lemma_intake_conserves(&self)
        requires
            self.wf(),
        ensures
            self.accepted().to_multiset() == self.claimed().to_multiset().add(
                self.pending().to_multiset(),
            ),
    {
        self.queue.lemma_conserves_items();
    }

    /// No more items are judged at once than the pool has workers.
    pub proof fn lemma_within_pool(&self)
        requires
            self.wf(),
        ensures
            self.in_flight().len() <= self.pool_size(),
    {
    }

    /// A worker wakes: takes one announcement from the admission signal if
    /// there is any, and reports whether it did.
    pub fn wake(&mut self) -> (r: bool)
        requires
            old(self).wf(),
        ensures
            final(self).wf(),
            final(self).pending() == old(self).pending(),
            final(self).accepted() == old(self).accepted(),
            final(self).in_flight() == old(self).in_flight(),
            final(self).settled() == old(self).settled(),
            final(self).rejected() == old(self).rejected(),
            final(self).pool_size() == old(self).pool_size(),
            final(self).claimed() == old(self).claimed(),
            r == (old(self).admissions() > 0),
            r ==> final(self).admissions() == old(self).admissions() - 1,
            !r ==> final(self).admissions() == old(self).admissions(),
    {
        self.signal.try_acquire()
    }

    /// A worker claims the oldest pending item. Nothing is claimed while
    /// every worker of the pool is already judging an item, or when nothing
    /// is pending. The claimed item stays in flight until it is settled.
    pub fn claim(&mut self) -> (r: Option<WorkItem>)
        requires
            old(self).wf(),
        ensures
            final(self).wf(),
            final(self).accepted() == old(self).accepted(),
            final(self).settled() == old(self).settled(),
            final(self).rejected() == old(self).rejected(),
            final(self).admissions() == old(self).admissions(),
            final(self).pool_size() == old(self).pool_size(),
            old(self).in_flight().len() >= old(self).pool_size() || old(self).pending().len() == 0
                ==> r is None,
            old(self).in_flight().len() >= old(self).pool_size() || old(self).pending().len() == 0
                ==> final(self).pending() == old(self).pending(),
            old(self).in_flight().len() >= old(self).pool_size() || old(self).pending().len() == 0
                ==> final(self).in_flight() == old(self).in_flight(),
            old(self).in_flight().len() >= old(self).pool_size() || old(self).pending().len() == 0
                ==> final(self).claimed() == old(self).claimed(),
            old(self).in_flight().len() < old(self).pool_size() && old(self).pending().len() > 0
                ==> r == Some(old(self).pending()[0]),
            old(self).in_flight().len() < old(self).pool_size() && old(self).pending().len() > 0
                ==> final(self).claimed() == old(self).claimed().push(old(self).pending()[0]),
            old(self).in_flight().len() < old(self).pool_size() && old(self).pending().len() > 0
                ==> final(self).pending() == old(self).pending().drop_first(),
            old(self).in_flight().len() < old(self).pool_size() && old(self).pending().len() > 0
                ==> final(self).in_flight() == old(self).in_flight().push(old(self).pending()[0].key()),
    {
        if self.in_flight.len() >= self.pool_size {
            return None;
        }
        let ghost popped_before = self.queue.popped();
        let ghost in_flight_before = self.in_flight@;
        match self.queue.pop() {
            Some(item) => {
                let key = item.key_of();
                self.in_flight.push(key);
                proof {
                    lemma_keys_of_push(popped_before, item);
                    assert(self.in_flight@ == in_flight_before.push(key));
                    assert(keys_of(self.queue.popped()).to_multiset() =~= self.in_flight@.to_multiset().add(
                        self.settled@,
                    ));
                }
                Some(item)
            },
            None => None,
        }
    }

    /// Settles a claimed item once the judge has answered: acknowledged on
    /// success, negatively acknowledged on failure. A key that is not in
    /// flight is left alone and gets no broker call, so no delivery is ever
    /// settled twice.
    pub fn settle(&mut self, key: DeliveryKey, judged: &Result<JudgeResult, String>) -> (r:
        Option<Settlement>)
        requires
            old(self).wf(),
        ensures
            final(self).wf(),
            final(self).pending() == old(self).pending(),
            final(self).accepted() == old(self).accepted(),
            final(self).rejected() == old(self).rejected(),
            final(self).admissions() == old(self).admissions(),
            final(self).pool_size() == old(self).pool_size(),
            final(self).claimed() == old(self).claimed(),
            !old(self).in_flight().contains(key) ==> r is None,
            !old(self).in_flight().contains(key) ==> final(self).in_flight() == old(self).in_flight(),
            !old(self).in_flight().contains(key) ==> final(self).settled() == old(self).settled(),
            old(self).in_flight().contains(key) ==> r == Some(
                (Settlement { key, resolution: resolution_of(*judged) }),
            ),
            old(self).in_flight().contains(key) ==> final(self).in_flight().len() == old(self).in_flight().len() - 1,
            old(self).in_flight().contains(key) ==> final(self).in_flight().to_multiset()
                == old(self).in_flight().to_multiset().remove(key),
            old(self).in_flight().contains(key) ==> final(self).settled() == old(self).settled().insert(key),
    {
        match position_of(&self.in_flight, key) {
            None => None,
            Some(i) => {
                let ghost in_flight_before = self.in_flight@;
                self.in_flight.remove(i);
                proof {
                    assert(in_flight_before.to_multiset().count(key) > 0);
                    self.settled@ = self.settled@.insert(key);
                    assert(keys_of(self.queue.popped()).to_multiset() =~= self.in_flight@.to_multiset().add(
                        self.settled@,
                    ));
                }
                Some(Settlement { key, resolution: resolution_for(judged) })
            },
        }
    }
}

} // verus!
