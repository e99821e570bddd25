use rayjudge::broker::{routing_key_or_default, Queue, TopologyStep};
use rayjudge::pipeline::pool_size_from;

#[test]
fn settings_keep_their_names() {
    let q = Queue::new(
        "amqp://localhost:5672".to_string(),
        "rayjudge".to_string(),
        "judges".to_string(),
        "key".to_string(),
    );
    assert_eq!(q.url, "amqp://localhost:5672");
    assert_eq!(q.queue, "rayjudge");
    assert_eq!(q.exchange, "judges");
    assert_eq!(q.routing_key, "key");
    assert_eq!(q.consumer_tag, "");
}

#[test]
fn topology_declares_queue_exchange_then_binding() {
    let q = Queue::new("u".to_string(), "jobs".to_string(), "ex".to_string(), "rk".to_string());
    assert_eq!(
        q.topology(),
        vec![
            TopologyStep::DeclareQueue { name: "jobs".to_string() },
            TopologyStep::DeclareDirectExchange { name: "ex".to_string() },
            TopologyStep::BindQueue {
                queue: "jobs".to_string(),
                exchange: "ex".to_string(),
                routing_key: "rk".to_string(),
            },
        ]
    );
}

#[test]
fn missing_routing_key_is_empty() {
    assert_eq!(routing_key_or_default(None), "");
    assert_eq!(routing_key_or_default(Some("judge".to_string())), "judge");
}

#[test]
fn pool_size_comes_from_a_positive_count() {
    assert_eq!(pool_size_from(4), Some(4));
    assert_eq!(pool_size_from(1), Some(1));
    assert_eq!(pool_size_from(0), None);
    assert_eq!(pool_size_from(-3), None);
}
