use std::cell::Cell;

use rayjudge::intake::{DeliveryKey, IntakeQueue, WorkItem};
use rayjudge::pipeline::{resolution_for, Pipeline, Resolution, Settlement};
use rayjudge::schema::{JudgeConfig, JudgeResult, Program};
use rayjudge::worker::{Judged, LinuxWorker, PlatformWorker, WindowsWorker, Worker};

fn sample_config(id: i32) -> JudgeConfig {
    JudgeConfig {
        id,
        version: "v5".to_string(),
        kind: "programming".to_string(),
        stages: Vec::new(),
        program: Program {
            language: "csharp".to_string(),
            compile_args: Vec::new(),
            sources: Vec::new(),
            git_repo_name: None,
            entry_point: None,
        },
        random_generator: None,
        custom_comparator: None,
        testcases: Vec::new(),
    }
}

/// A judge that counts its calls and answers with a fixed outcome.
struct CountingJudge {
    calls: Cell<u32>,
    succeed: bool,
}

impl PlatformWorker for CountingJudge {
    fn judges(&self, _config: JudgeConfig, r: Result<JudgeResult, String>) -> bool {
        r.is_ok() == self.succeed
    }

    fn judge(&self, config: &JudgeConfig) -> Result<JudgeResult, String> {
        self.calls.set(self.calls.get() + 1);
        if self.succeed {
            Ok(JudgeResult { id: config.id, status: "accepted".to_string() })
        } else {
            Err("failed".to_string())
        }
    }
}

fn settlements(judged: Vec<Judged>) -> Vec<Settlement> {
    judged.into_iter().map(|j| j.settlement).collect()
}

fn key(channel: u16, delivery_tag: u64) -> DeliveryKey {
    DeliveryKey { channel, delivery_tag }
}

#[test]
fn scenario_failed_judge_is_nacked_once() {
    let mut pipeline = Pipeline::new(4);
    assert_eq!(pipeline.on_delivery(1, 1, Some(sample_config(1))), None);
    assert!(pipeline.wake());
    let worker = Worker::new(0, LinuxWorker::new());
    let calls = settlements(worker.drain(&mut pipeline));
    assert_eq!(calls, vec![Settlement { key: key(1, 1), resolution: Resolution::Nack }]);
    assert!(pipeline.is_idle());
    assert_eq!(pipeline.busy(), 0);
    assert!(worker.drain(&mut pipeline).is_empty());
}

#[test]
fn scenario_malformed_payload_is_rejected() {
    let mut pipeline = Pipeline::new(4);
    let rejected = pipeline.on_delivery(1, 7, None);
    assert_eq!(rejected, Some(Settlement { key: key(1, 7), resolution: Resolution::Reject }));
    assert!(pipeline.is_idle());
    assert!(!pipeline.wake());
    let worker = Worker::new(0, CountingJudge { calls: Cell::new(0), succeed: true });
    assert!(worker.drain(&mut pipeline).is_empty());
    assert_eq!(worker.platform_worker.calls.get(), 0);
}

#[test]
fn scenario_two_back_to_back_settled_once_each() {
    let mut pipeline = Pipeline::new(4);
    assert_eq!(pipeline.on_delivery(1, 1, Some(sample_config(1))), None);
    assert_eq!(pipeline.on_delivery(1, 2, Some(sample_config(2))), None);
    assert!(pipeline.wake());
    let worker = Worker::new(0, WindowsWorker::new());
    let calls = settlements(worker.drain(&mut pipeline));
    assert_eq!(
        calls,
        vec![
            Settlement { key: key(1, 1), resolution: Resolution::Nack },
            Settlement { key: key(1, 2), resolution: Resolution::Nack },
        ]
    );
    assert!(pipeline.is_idle());
    assert_eq!(pipeline.busy(), 0);
    assert!(pipeline.wake());
    assert!(pipeline.claim().is_none());
    assert!(worker.drain(&mut pipeline).is_empty());
    assert!(!pipeline.wake());
}

#[test]
fn drained_items_carry_the_deciding_outcome() {
    let mut pipeline = Pipeline::new(1);
    pipeline.on_delivery(2, 4, Some(sample_config(4)));
    let worker = Worker::new(0, LinuxWorker::new());
    let judged = worker.drain(&mut pipeline);
    assert_eq!(
        judged,
        vec![Judged {
            settlement: Settlement { key: key(2, 4), resolution: Resolution::Nack },
            outcome: Err("not implemented.".to_string()),
        }]
    );
}

#[test]
fn successful_judge_is_acked() {
    let mut pipeline = Pipeline::new(2);
    pipeline.on_delivery(3, 9, Some(sample_config(9)));
    let worker = Worker::new(1, CountingJudge { calls: Cell::new(0), succeed: true });
    let calls = settlements(worker.drain(&mut pipeline));
    assert_eq!(calls, vec![Settlement { key: key(3, 9), resolution: Resolution::Ack }]);
    assert_eq!(worker.platform_worker.calls.get(), 1);
}

#[test]
fn decoded_request_is_queued_unchanged() {
    let mut pipeline = Pipeline::new(1);
    let mut config = sample_config(42);
    config.program.compile_args = vec!["-O2".to_string()];
    config.version = "v1".to_string();
    pipeline.on_delivery(5, 11, Some(config));
    let item = pipeline.claim().unwrap();
    let mut expected = sample_config(42);
    expected.program.compile_args = vec!["-O2".to_string()];
    expected.version = "v1".to_string();
    assert_eq!(item.channel, 5);
    assert_eq!(item.delivery_tag, 11);
    assert_eq!(item.config, expected);
}

#[test]
fn settling_twice_issues_one_call() {
    let mut pipeline = Pipeline::new(2);
    pipeline.on_delivery(1, 1, Some(sample_config(1)));
    let item = pipeline.claim().unwrap();
    let first = pipeline.settle(item.key_of(), &Err("boom".to_string()));
    assert_eq!(first, Some(Settlement { key: key(1, 1), resolution: Resolution::Nack }));
    let second = pipeline.settle(item.key_of(), &Ok(JudgeResult { id: 1, status: "ok".to_string() }));
    assert_eq!(second, None);
    assert_eq!(pipeline.busy(), 0);
}

#[test]
fn unknown_key_is_not_settled() {
    let mut pipeline = Pipeline::new(2);
    assert_eq!(pipeline.settle(key(1, 1), &Err("x".to_string())), None);
}

#[test]
fn claims_never_exceed_pool_size() {
    let mut pipeline = Pipeline::new(2);
    for tag in 1..=3u64 {
        pipeline.on_delivery(1, tag, Some(sample_config(tag as i32)));
    }
    let a = pipeline.claim().unwrap();
    let b = pipeline.claim().unwrap();
    assert_eq!(a.delivery_tag, 1);
    assert_eq!(b.delivery_tag, 2);
    assert!(pipeline.claim().is_none());
    assert_eq!(pipeline.busy(), 2);
    assert_eq!(pipeline.pool_size_of(), 2);
    assert!(!pipeline.is_idle());
    pipeline.settle(a.key_of(), &Err("x".to_string()));
    let c = pipeline.claim().unwrap();
    assert_eq!(c.delivery_tag, 3);
    assert_eq!(pipeline.busy(), 2);
}

#[test]
fn drain_with_full_pool_claims_nothing() {
    let mut pipeline = Pipeline::new(1);
    pipeline.on_delivery(1, 1, Some(sample_config(1)));
    pipeline.on_delivery(1, 2, Some(sample_config(2)));
    let held = pipeline.claim().unwrap();
    let worker = Worker::new(0, CountingJudge { calls: Cell::new(0), succeed: true });
    assert!(worker.drain(&mut pipeline).is_empty());
    assert_eq!(worker.platform_worker.calls.get(), 0);
    pipeline.settle(held.key_of(), &Err("x".to_string()));
    let calls = settlements(worker.drain(&mut pipeline));
    assert_eq!(calls, vec![Settlement { key: key(1, 2), resolution: Resolution::Ack }]);
}

#[test]
fn interleaved_pushes_and_pops_lose_and_duplicate_nothing() {
    let mut queue = IntakeQueue::new();
    let mut popped: Vec<u64> = Vec::new();
    for tag in 0..20u64 {
        queue.push(WorkItem { channel: 1, delivery_tag: tag, config: sample_config(tag as i32) });
        if tag % 3 == 0 {
            if let Some(item) = queue.pop() {
                popped.push(item.delivery_tag);
            }
        }
    }
    assert!(!queue.is_empty());
    while let Some(item) = queue.pop() {
        popped.push(item.delivery_tag);
    }
    assert!(queue.is_empty());
    assert_eq!(queue.pop(), None);
    let mut sorted = popped.clone();
    sorted.sort();
    assert_eq!(sorted, (0..20u64).collect::<Vec<u64>>());
    assert_eq!(popped, (0..20u64).collect::<Vec<u64>>());
}

#[test]
fn resolution_follows_judge_outcome() {
    assert_eq!(resolution_for(&Ok(JudgeResult { id: 1, status: "ok".to_string() })), Resolution::Ack);
    assert_eq!(resolution_for(&Err("no".to_string())), Resolution::Nack);
}

#[test]
fn platform_judges_are_not_implemented() {
    let config = sample_config(1);
    assert_eq!(LinuxWorker::new().judge(&config), Err("not implemented.".to_string()));
    assert_eq!(WindowsWorker::new().judge(&config), Err("not implemented.".to_string()));
    assert_eq!(PlatformWorker::judge(&LinuxWorker::new(), &config), Err("not implemented.".to_string()));
}

#[test]
fn worker_keeps_its_id() {
    let worker = Worker::new(7, LinuxWorker::new());
    assert_eq!(worker.id, 7);
}
