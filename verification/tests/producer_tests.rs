use kafka_core::consumer::PARTITION_ANY;
use kafka_core::ops::NativeOp;
use kafka_core::producer::{Producer, ProducerError};

/// A counting double for the native engine's topic and produce calls.
struct CountingEngine {
    next_topic: u64,
    produce_calls: usize,
    live_topics: Vec<u64>,
}

impl CountingEngine {
    fn new() -> CountingEngine {
        CountingEngine { next_topic: 40, produce_calls: 0, live_topics: Vec::new() }
    }

    fn create_topic(&mut self) -> u64 {
        let h = self.next_topic;
        self.next_topic += 1;
        self.live_topics.push(h);
        h
    }

    /// Registers every name the producer still needs a handle for.
    fn register(&mut self, p: &mut Producer, topics: &Vec<String>) {
        let fresh = p.topics_to_register(topics);
        let handles: Vec<u64> = fresh.iter().map(|_| self.create_topic()).collect();
        p.set_topics(&fresh, &handles);
    }
}

#[test]
fn new_producer_has_empty_registry() {
    let p = Producer::new(3);
    assert_eq!(p.rk, 3);
    assert_eq!(p.rkt.len(), 0);
}

#[test]
fn registering_twice_leaves_exactly_one_handle() {
    let mut engine = CountingEngine::new();
    let mut p = Producer::new(3);
    let topics = vec!["events".to_string()];
    engine.register(&mut p, &topics);
    engine.register(&mut p, &topics);
    // One native topic handle was ever created, and the registry holds it once.
    assert_eq!(engine.live_topics.len(), 1);
    assert_eq!(p.rkt.len(), 1);
    assert_eq!(p.rkt[0].name, "events");
}

#[test]
fn duplicate_names_in_one_call_get_one_handle() {
    let mut engine = CountingEngine::new();
    let mut p = Producer::new(3);
    let topics = vec!["a".to_string(), "a".to_string(), "b".to_string()];
    let fresh = p.topics_to_register(&topics);
    assert_eq!(fresh, vec!["a".to_string(), "b".to_string()]);
    engine.register(&mut p, &topics);
    assert_eq!(engine.live_topics.len(), 2);
    assert_eq!(p.rkt.len(), 2);
}

#[test]
fn send_to_unregistered_topic_makes_no_native_call() {
    let engine = CountingEngine::new();
    let p = Producer::new(3);
    let r = p.send(&b"payload".to_vec(), &"missing".to_string(), None);
    assert_eq!(r.unwrap_err(), ProducerError::UnregisteredTopic);
    // No produce call was handed out, so the double never saw one.
    assert_eq!(engine.produce_calls, 0);
}

#[test]
fn send_to_registered_topic_builds_the_produce_call() {
    let mut engine = CountingEngine::new();
    let mut p = Producer::new(3);
    engine.register(&mut p, &vec!["events".to_string()]);
    let handle = p.rkt[0].handle;

    let req = p.send(&b"payload".to_vec(), &"events".to_string(), Some(4)).unwrap();
    engine.produce_calls += 1;
    assert_eq!(req.topic_handle, handle);
    assert_eq!(req.partition, 4);
    assert_eq!(req.payload, b"payload".to_vec());

    let req = p.send(&b"payload".to_vec(), &"events".to_string(), None).unwrap();
    engine.produce_calls += 1;
    assert_eq!(req.partition, PARTITION_ANY);
    assert_eq!(engine.produce_calls, 2);
}

#[test]
fn send_result_translates_the_enqueue_status() {
    assert!(Producer::send_result(0, 0, String::new()).is_ok());
    let e = Producer::send_result(-1, 105, "queue full".to_string()).unwrap_err();
    assert_eq!(e, ProducerError::SendError("queue full".to_string()));
    // The failure sentinel without a last error is still a hand-off.
    assert!(Producer::send_result(-1, 0, String::new()).is_ok());
}

#[test]
fn poll_never_blocks() {
    let p = Producer::new(3);
    let call = p.poll();
    assert_eq!(call.client, 3);
    assert_eq!(call.timeout_ms, 0);
}

#[test]
fn flush_carries_the_caller_timeout() {
    let p = Producer::new(3);
    let call = p.flush(800);
    assert_eq!(call.client, 3);
    assert_eq!(call.timeout_ms, 800);
}

#[test]
fn flush_with_empty_queue_returns_immediately() {
    // A zero-timeout flush of an empty outbound queue waits zero rounds.
    let mut rounds: usize = 0;
    let mut elapsed: i32 = 0;
    while !Producer::flush_done(0, elapsed, 0) {
        rounds += 1;
        elapsed += 10;
    }
    assert_eq!(rounds, 0);
    // A non-empty queue keeps a generous flush waiting until the timeout.
    assert!(!Producer::flush_done(5, 0, 100));
    assert!(Producer::flush_done(5, 100, 100));
    assert!(Producer::flush_done(0, 0, 100));
}

#[test]
fn teardown_destroys_every_topic_then_the_client() {
    let mut engine = CountingEngine::new();
    let mut p = Producer::new(3);
    engine.register(&mut p, &vec!["a".to_string(), "b".to_string()]);
    let h0 = p.rkt[0].handle;
    let h1 = p.rkt[1].handle;
    assert_eq!(
        p.teardown_plan(),
        vec![
            NativeOp::DestroyTopic { topic: h0 },
            NativeOp::DestroyTopic { topic: h1 },
            NativeOp::DestroyClient { client: 3 },
        ]
    );
}
