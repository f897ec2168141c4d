use kafka_core::get_error_str;
use kafka_core::message::{Message, MessageError, Messages, PollRecord};

fn record(handle: u64, err_code: i32, err_text: &str, payload: &[u8], offset: i64) -> PollRecord {
    PollRecord {
        handle,
        err_code,
        err_text: err_text.to_string(),
        payload: payload.to_vec(),
        partition: 0,
        offset,
    }
}

#[test]
fn error_translator_maps_zero_to_no_error() {
    assert_eq!(get_error_str(0, "ignored".to_string()), None);
    assert_eq!(get_error_str(-191, "partition EOF".to_string()), Some("partition EOF".to_string()));
}

#[test]
fn null_poll_yields_nothing_and_releases_nothing() {
    let msgs = Messages::new(5, 100);
    let step = msgs.next(None);
    assert!(step.item.is_none());
    assert!(step.release.is_none());
}

#[test]
fn clean_record_is_decoded_and_released() {
    let msgs = Messages::new(5, 100);
    let step = msgs.next(Some(record(301, 0, "", b"payload", 42)));
    assert_eq!(step.release, Some(301));
    let m = step.item.unwrap().unwrap();
    assert_eq!(m.payload, b"payload".to_vec());
    assert_eq!(m.partition, 0);
    assert_eq!(m.offset, 42);
}

#[test]
fn record_level_error_is_yielded_and_still_released() {
    let msgs = Messages::new(5, 100);
    let step = msgs.next(Some(record(302, -191, "partition EOF", b"", 0)));
    assert_eq!(step.release, Some(302));
    let e = step.item.unwrap().unwrap_err();
    assert_eq!(e, MessageError::KafkaError("partition EOF".to_string()));
}

#[test]
fn poll_sequence_yields_results_and_releases_every_buffer() {
    // Native poll results: a record, a record-level error, null, a record.
    let polled = vec![
        Some(record(1, 0, "", b"first", 7)),
        Some(record(2, -191, "partition EOF", b"", 0)),
        None,
        Some(record(3, 0, "", b"second", 8)),
    ];
    let msgs = Messages::new(5, 100);
    let mut yielded: Vec<Option<Result<Message, MessageError>>> = Vec::new();
    let mut released: Vec<u64> = Vec::new();
    for p in polled {
        let step = msgs.next(p);
        if let Some(handle) = step.release {
            released.push(handle);
        }
        yielded.push(step.item);
    }
    assert_eq!(yielded.len(), 4);
    assert_eq!(yielded[0].as_ref().unwrap().as_ref().unwrap().payload, b"first".to_vec());
    assert!(yielded[1].as_ref().unwrap().is_err());
    assert!(yielded[2].is_none());
    assert_eq!(yielded[3].as_ref().unwrap().as_ref().unwrap().payload, b"second".to_vec());
    // Every non-null result was released, the error included.
    assert_eq!(released, vec![1, 2, 3]);
}

#[test]
fn read_decodes_utf8_payload() {
    let m = Message { payload: b"hello broker".to_vec(), partition: 1, offset: 3 };
    assert_eq!(m.read().unwrap(), "hello broker");
}

#[test]
fn read_rejects_invalid_utf8() {
    let m = Message { payload: vec![0xff, 0xfe, 0x80], partition: 1, offset: 3 };
    assert!(m.read().is_err());
}
