//! Settings of the broker client, and the topology it declares before it
//! consumes: a queue, a direct exchange, and the binding between them.

use vstd::prelude::*;

verus! {

/// Where the client connects, and which queue, exchange and routing key it
/// declares, publishes to and consumes from.
pub struct Queue {
    pub url: String,
    pub queue: String,
    pub exchange: String,
    pub routing_key: String,
    pub consumer_tag: String,
}

/// One declaration the broker client makes at startup.
#[derive(Clone, Debug, PartialEq)]
pub enum TopologyStep {
    /// Declare the queue named `name`.
    DeclareQueue { name: String },
    /// Declare the exchange named `name`, of the direct kind.
    DeclareDirectExchange { name: String },
    /// Bind `queue` to `exchange` under `routing_key`.
    BindQueue { queue: String, exchange: String, routing_key: String },
}

/// The routing key to use: the one given, or the empty key.
pub fn routing_key_or_default(routing_key: Option<String>) -> (r: String)
    ensures
        routing_key is None ==> r@ == Seq::<char>::empty(),
        routing_key matches Some(k) ==> r@ == k@,
{
    match routing_key {
        Some(key) => key,
        None => String::new(),
    }
}

impl Queue {
    /// Settings for a client that consumes under the empty consumer tag.
    pub fn new(url: String, queue: String, exchange: String, routing_key: String) -> (r: Queue)
        ensures
            r.url@ == url@,
            r.queue@ == queue@,
            r.exchange@ == exchange@,
            r.routing_key@ == routing_key@,
            r.consumer_tag@ == Seq::<char>::empty(),
    {
        Queue { url, queue, exchange, routing_key, consumer_tag: String::new() }
    }

    /// The declarations to make, in this order: the queue, the direct
    /// exchange, then the binding of the queue to the exchange under the
    /// routing key. Startup stops at the first one that fails.
    pub fn topology(&self) -> (r: Vec<TopologyStep>)
        ensures
            r@.len() == 3,
            r@[0] matches TopologyStep::DeclareQueue { name } && name@ == self.queue@,
            r@[1] matches TopologyStep::DeclareDirectExchange { name } && name@ == self.exchange@,
            r@[2] matches TopologyStep::BindQueue { queue, exchange, routing_key } && queue@
                == self.queue@ && exchange@ == self.exchange@ && routing_key@
                == self.routing_key@,
    {
        let mut steps: Vec<TopologyStep> = Vec::new();
        steps.push(TopologyStep::DeclareQueue { name: self.queue.clone() });
        steps.push(TopologyStep::DeclareDirectExchange { name: self.exchange.clone() });
        steps.push(
            TopologyStep::BindQueue {
                queue: self.queue.clone(),
                exchange: self.exchange.clone(),
                routing_key: self.routing_key.clone(),
            },
        );
        steps
    }
}

} // verus!
