use kafka_core::config::{Config, ConfigApply};

fn entry_pairs(c: &Config) -> Vec<(String, String)> {
    c.conf_map.iter().map(|e| (e.key.clone(), e.value.clone())).collect()
}

#[test]
fn new_config_is_empty() {
    let c = Config::new();
    assert_eq!(c.conf_map.len(), 0);
}

#[test]
fn set_accumulates_entries_in_order() {
    let mut c = Config::new();
    c.set("bootstrap.servers", "localhost:9092");
    c.set("group.id", "demo");
    assert_eq!(
        entry_pairs(&c),
        vec![
            ("bootstrap.servers".to_string(), "localhost:9092".to_string()),
            ("group.id".to_string(), "demo".to_string()),
        ]
    );
}

#[test]
fn set_last_write_wins_in_place() {
    let mut c = Config::new();
    c.set("a", "1");
    c.set("b", "2");
    c.set("a", "3");
    assert_eq!(
        entry_pairs(&c),
        vec![("a".to_string(), "3".to_string()), ("b".to_string(), "2".to_string())]
    );
}

#[test]
fn set_calls_chain() {
    let mut c = Config::new();
    c.set("a", "1").set("b", "2").set("c", "3");
    assert_eq!(c.conf_map.len(), 3);
}

fn apply_all_clean(mut apply: ConfigApply) -> ConfigApply {
    while !apply.done() {
        apply.step(String::new()).expect("clean apply must succeed");
    }
    apply
}

#[test]
fn build_applies_every_entry_once() {
    let mut c = Config::new();
    c.set("a", "1").set("b", "2").set("c", "3");
    let mut apply = c.begin_build();
    let mut seen: Vec<String> = Vec::new();
    loop {
        let key = match apply.next_entry() {
            Some(e) => e.key.clone(),
            None => break,
        };
        seen.push(key);
        apply.step(String::new()).unwrap();
    }
    assert!(apply.done());
    assert_eq!(seen, vec!["a".to_string(), "b".to_string(), "c".to_string()]);
}

#[test]
fn rejected_entry_is_attributed_exactly() {
    let mut c = Config::new();
    c.set("good", "1").set("bad", "nonsense");
    let mut apply = c.begin_build();
    // The native layer accepts the first entry and rejects the second.
    apply.step(String::new()).unwrap();
    let e = apply.step("unknown property".to_string()).unwrap_err();
    assert_eq!(e.key, "bad");
    assert_eq!(e.value, "nonsense");
    assert_eq!(e.reason, "unknown property");
}

#[test]
fn build_consumer_succeeds_on_clean_construction() {
    let mut c = Config::new();
    c.set("group.id", "demo");
    let apply = apply_all_clean(c.begin_build());
    let consumer = apply.build_consumer(String::new(), 11).unwrap();
    assert_eq!(consumer.rk, 11);
    assert!(consumer.assignment.is_none());
}

#[test]
fn build_consumer_reports_construction_failure() {
    let c = Config::new();
    let apply = apply_all_clean(c.begin_build());
    let e = apply.build_consumer("bad broker list".to_string(), 11).unwrap_err();
    // A construction failure carries only the native reason: no key, no value.
    assert_eq!(e.key, "");
    assert_eq!(e.value, "");
    assert_eq!(e.reason, "bad broker list");
}

#[test]
fn build_producer_succeeds_on_clean_construction() {
    let c = Config::new();
    let apply = apply_all_clean(c.begin_build());
    let producer = apply.build_producer(String::new(), 12).unwrap();
    assert_eq!(producer.rk, 12);
    assert_eq!(producer.rkt.len(), 0);
}

#[test]
fn build_producer_reports_construction_failure() {
    let c = Config::new();
    let apply = apply_all_clean(c.begin_build());
    let e = apply.build_producer("no resolvable broker".to_string(), 12).unwrap_err();
    // A construction failure carries only the native reason: no key, no value.
    assert_eq!(e.key, "");
    assert_eq!(e.value, "");
    assert_eq!(e.reason, "no resolvable broker");
}
