//! Workers: each claims pending items from the pipeline, hands them to its
//! platform's judge, and settles them by the judge's answer.

use vstd::prelude::*;
use vstd::multiset::Multiset;
use crate::intake::{WorkItem, keys_of};
use crate::pipeline::{Pipeline, Settlement, resolution_of};
use crate::schema::{JudgeConfig, JudgeResult};

verus! {

broadcast use vstd::seq_lib::group_to_multiset_ensures, vstd::multiset::group_multiset_axioms;

/// The judge of one platform: runs a request and reports its result, or
/// fails with a message.
pub trait PlatformWorker {
    /// Whether `r` is an answer this judge may give for `config`.
    spec fn judges(&self, config: JudgeConfig, r: Result<JudgeResult, String>) -> bool;

    fn judge(&self, config: &JudgeConfig) -> (r: Result<JudgeResult, String>)
        ensures
            self.judges(*config, r),
    ;
}

/// The message every request fails with where judging is not available.
pub open spec fn not_implemented() -> Seq<char> {
    "not implemented."@
}

/// The judge on Linux hosts.
#[derive(Clone, Copy, Debug)]
pub struct LinuxWorker {}

impl LinuxWorker {
    pub fn new() -> (r: LinuxWorker) {
        LinuxWorker {  }
    }

    /// Judging is not available on this platform yet: every request fails.
    pub fn judge(&self, config: &JudgeConfig) -> (r: Result<JudgeResult, String>)
        ensures
            r matches Err(m) && m@ == not_implemented(),
    {
        proof {
            reveal_strlit("not implemented.");
        }
        Err("not implemented.".to_owned())
    }
}

impl PlatformWorker for LinuxWorker {
    open spec fn judges(&self, config: JudgeConfig, r: Result<JudgeResult, String>) -> bool {
        r matches Err(m) && m@ == not_implemented()
    }

    fn judge(&self, config: &JudgeConfig) -> Result<JudgeResult, String> {
        LinuxWorker::judge(self, config)
    }
}

/// The judge on Windows hosts.
#[derive(Clone, Copy, Debug)]
pub struct WindowsWorker {}

impl WindowsWorker {
    pub fn new() -> (r: WindowsWorker) {
        WindowsWorker {  }
    }

    /// Judging is not available on this platform yet: every request fails.
    pub fn judge(&self, config: &JudgeConfig) -> (r: Result<JudgeResult, String>)
        ensures
            r matches Err(m) && m@ == not_implemented(),
    {
        proof {
            reveal_strlit("not implemented.");
        }
        Err("not implemented.".to_owned())
    }
}

impl PlatformWorker for WindowsWorker {
    open spec fn judges(&self, config: JudgeConfig, r: Result<JudgeResult, String>) -> bool {
        r matches Err(m) && m@ == not_implemented()
    }

    fn judge(&self, config: &JudgeConfig) -> Result<JudgeResult, String> {
        WindowsWorker::judge(self, config)
    }
}

/// One judged item: the broker call to make for it, and the judge's answer
/// that decided that call.
#[derive(Debug, PartialEq)]
pub struct Judged {
    pub settlement: Settlement,
    pub outcome: Result<JudgeResult, String>,
}

/// One unit of the worker pool, bound to one platform judge.
pub struct Worker<T: PlatformWorker> {
    pub id: i32,
    pub platform_worker: T,
}

impl<T: PlatformWorker> Worker<T> {
    pub fn new(id: i32, platform_worker: T) -> (r: Worker<T>)
        ensures
            r.id == id,
            r.platform_worker == platform_worker,
    {
        Worker { id, platform_worker }
    }

    /// Runs the platform judge on a claimed item.
    pub fn judge_item(&self, item: &WorkItem) -> (r: Result<JudgeResult, String>)
        ensures
            self.platform_worker.judges(item.config, r),
    {
        self.platform_worker.judge(&item.config)
    }

    /// Once woken: claims pending items one at a time, judges each and
    /// settles it, until nothing is pending or the pool has no free worker.
    /// Returns the broker calls to make, in the order the items were claimed,
    /// each beside the judge's answer that decided it. Started with no item
    /// in flight and a pool of at least one worker, it leaves the pipeline
    /// quiescent: nothing pending or in flight, every accepted delivery
    /// claimed and settled exactly once.
    pub fn drain(&self, pipeline: &mut Pipeline) -> (r: Vec<Judged>)
        requires
            old(pipeline).wf(),
        ensures
            final(pipeline).wf(),
            final(pipeline).accepted() == old(pipeline).accepted(),
            final(pipeline).rejected() == old(pipeline).rejected(),
            final(pipeline).admissions() == old(pipeline).admissions(),
            final(pipeline).pool_size() == old(pipeline).pool_size(),
            final(pipeline).in_flight().to_multiset() == old(pipeline).in_flight().to_multiset(),
            final(pipeline).in_flight().len() == old(pipeline).in_flight().len(),
            r@.len() <= old(pipeline).pending().len(),
            old(pipeline).in_flight().len() < old(pipeline).pool_size() ==> r@.len()
                == old(pipeline).pending().len(),
            final(pipeline).pending() == old(pipeline).pending().skip(r@.len() as int),
            final(pipeline).claimed() == old(pipeline).claimed() + old(pipeline).pending().take(
                r@.len() as int,
            ),
            final(pipeline).settled() == old(pipeline).settled().add(
                keys_of(old(pipeline).pending().take(r@.len() as int)).to_multiset(),
            ),
            forall|j: int|
                0 <= j < r@.len() ==> #[trigger] r@[j].settlement.key == old(pipeline).pending()[j].key(),
            forall|j: int|
                0 <= j < r@.len() ==> self.platform_worker.judges(
                    old(pipeline).pending()[j].config,
                    #[trigger] r@[j].outcome,
                ),
            forall|j: int|
                0 <= j < r@.len() ==> #[trigger] r@[j].settlement.resolution == resolution_of(
                    r@[j].outcome,
                ),
            old(pipeline).in_flight().len() == 0 && old(pipeline).pool_size() > 0 ==> final(pipeline).pending().len() == 0,
            old(pipeline).in_flight().len() == 0 && old(pipeline).pool_size() > 0 ==> final(pipeline).in_flight().len() == 0,
            old(pipeline).in_flight().len() == 0 && old(pipeline).pool_size() > 0 ==> final(pipeline).settled() == keys_of(final(pipeline).accepted()).to_multiset(),
            old(pipeline).in_flight().len() == 0 && old(pipeline).pool_size() > 0 ==> final(pipeline).claimed().to_multiset() == final(pipeline).accepted().to_multiset(),
    {
        let ghost start = *pipeline;
        let mut done: Vec<Judged> = Vec::new();
        loop
            invariant
                pipeline.wf(),
                pipeline.accepted() == start.accepted(),
                pipeline.rejected() == start.rejected(),
                pipeline.admissions() == start.admissions(),
                pipeline.pool_size() == start.pool_size(),
                pipeline.in_flight().to_multiset() == start.in_flight().to_multiset(),
                pipeline.in_flight().len() == start.in_flight().len(),
                done@.len() <= start.pending().len(),
                pipeline.pending() == start.pending().skip(done@.len() as int),
                pipeline.claimed() == start.claimed() + start.pending().take(done@.len() as int),
                pipeline.settled() == start.settled().add(
                    keys_of(start.pending().take(done@.len() as int)).to_multiset(),
                ),
                forall|j: int|
                    0 <= j < done@.len() ==> #[trigger] done@[j].settlement.key == start.pending()[j].key(),
                forall|j: int|
                    0 <= j < done@.len() ==> self.platform_worker.judges(
                        start.pending()[j].config,
                        #[trigger] done@[j].outcome,
                    ),
                forall|j: int|
                    0 <= j < done@.len() ==> #[trigger] done@[j].settlement.resolution
                        == resolution_of(done@[j].outcome),
            ensures
                start.in_flight().len() < start.pool_size() ==> done@.len()
                    == start.pending().len(),
            decreases pipeline.pending().len(),
        {
            let ghost before = *pipeline;
            let ghost n = done@.len() as int;
            match pipeline.claim() {
                None => {
                    break ;
                },
                Some(item) => {
                    let key = item.key_of();
                    let judged = self.judge_item(&item);
                    assert(pipeline.in_flight().contains(key)) by {
                        assert(pipeline.in_flight().last() == key);
                    }
                    let settled = pipeline.settle(key, &judged);
                    match settled {
                        Some(settlement) => {
                            done.push(Judged { settlement, outcome: judged });
                        },
                        None => {},
                    }
                    proof {
                        let p = start.pending();
                        assert(before.pending() =~= p.skip(n));
                        assert(item == p[n]);
                        assert(pipeline.pending() =~= p.skip(n + 1));
                        assert(p.take(n + 1) =~= p.take(n).push(p[n]));
                        assert(pipeline.claimed() =~= start.claimed() + p.take(n + 1));
                        assert(keys_of(p.take(n + 1)) =~= keys_of(p.take(n)).push(key));
                        assert(pipeline.settled() =~= start.settled().add(
                            keys_of(p.take(n + 1)).to_multiset(),
                        ));
                        assert(pipeline.in_flight().to_multiset() =~= before.in_flight().to_multiset());
                    }
                },
            }
        }
        proof {
            pipeline.lemma_settled_exactly_once();
            pipeline.lemma_intake_conserves();
            if start.in_flight().len() == 0 && start.pool_size() > 0 {
                assert(pipeline.pending() =~= Seq::<WorkItem>::empty());
                assert(Seq::<WorkItem>::empty().to_multiset() =~= Multiset::<WorkItem>::empty());
                assert(pipeline.claimed().to_multiset() =~= pipeline.accepted().to_multiset());
            }
        }
        done
    }
}

} // verus!
