use hyperx_daemon::event::{parse_input_event, InputEvent, EVENT_SIZE};

fn encode(e: &InputEvent) -> Vec<u8> {
    let mut b = Vec::new();
    b.extend_from_slice(&e.seconds.to_le_bytes());
    b.extend_from_slice(&e.microseconds.to_le_bytes());
    b.extend_from_slice(&e.event_type.to_le_bytes());
    b.extend_from_slice(&e.event_code.to_le_bytes());
    b.extend_from_slice(&e.value.to_le_bytes());
    b
}

#[test]
fn decode_round_trips_all_five_fields() {
    let e = InputEvent {
        seconds: 1_700_000_123,
        microseconds: 999_999,
        event_type: 1,
        event_code: 115,
        value: 1,
    };
    let b = encode(&e);
    assert_eq!(b.len(), EVENT_SIZE);
    assert_eq!(parse_input_event(&b), Some(e));
}

#[test]
fn decode_round_trips_negative_fields() {
    let e = InputEvent {
        seconds: -2,
        microseconds: i64::MIN,
        event_type: u16::MAX,
        event_code: 0,
        value: -1,
    };
    let b = encode(&e);
    assert_eq!(parse_input_event(&b), Some(e));
}

#[test]
fn decode_round_trips_extremes() {
    let e = InputEvent {
        seconds: i64::MAX,
        microseconds: i64::MIN + 1,
        event_type: 0x8000,
        event_code: 0x7fff,
        value: i32::MIN,
    };
    let b = encode(&e);
    assert_eq!(parse_input_event(&b), Some(e));
}

#[test]
fn decode_of_all_zero_record_is_all_zero_event() {
    let b = vec![0u8; 24];
    let e = parse_input_event(&b).unwrap();
    assert_eq!(e.seconds, 0);
    assert_eq!(e.microseconds, 0);
    assert_eq!(e.event_type, 0);
    assert_eq!(e.event_code, 0);
    assert_eq!(e.value, 0);
}

#[test]
fn decode_reads_little_endian_fields() {
    let mut b = vec![0u8; 24];
    b[0] = 1; // seconds = 1
    b[16] = 1; // event_type = 1
    b[18] = 115; // event_code = 115
    let e = parse_input_event(&b).unwrap();
    assert_eq!(e.seconds, 1);
    assert_eq!(e.event_type, 1);
    assert_eq!(e.event_code, 115);
}

#[test]
fn decode_rejects_every_other_length() {
    for n in [0usize, 1, 8, 20, 23, 25, 48] {
        let b = vec![0xabu8; n];
        assert_eq!(parse_input_event(&b), None);
    }
}
