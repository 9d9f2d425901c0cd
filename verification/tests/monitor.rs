use hyperx_daemon::event::InputEvent;
use hyperx_daemon::monitor::{
    adjust_volume_command, classify_event, volume_daemon_step, VolumeDirection, INCREMENT,
};

fn key_event_record(event_type: u16, event_code: u16, value: i32) -> Vec<u8> {
    let mut b = Vec::new();
    b.extend_from_slice(&0i64.to_le_bytes());
    b.extend_from_slice(&0i64.to_le_bytes());
    b.extend_from_slice(&event_type.to_le_bytes());
    b.extend_from_slice(&event_code.to_le_bytes());
    b.extend_from_slice(&value.to_le_bytes());
    b
}

#[test]
fn volume_up_key_maps_to_up() {
    let b = key_event_record(1, 115, 1);
    assert_eq!(volume_daemon_step(&b), Some(VolumeDirection::Up));
    let cmd = adjust_volume_command(VolumeDirection::Up, INCREMENT);
    assert_eq!(cmd, b"1%+".to_vec());
}

#[test]
fn volume_down_key_maps_to_down() {
    let b = key_event_record(1, 114, 0);
    assert_eq!(volume_daemon_step(&b), Some(VolumeDirection::Down));
    let cmd = adjust_volume_command(VolumeDirection::Down, INCREMENT);
    assert_eq!(cmd, b"1%-".to_vec());
}

#[test]
fn unrecognised_key_code_is_ignored() {
    let b = key_event_record(1, 999, 1);
    assert_eq!(volume_daemon_step(&b), None);
}

#[test]
fn non_key_event_types_are_ignored() {
    // Even the watched codes are ignored on other event types.
    assert_eq!(volume_daemon_step(&key_event_record(0, 115, 1)), None);
    assert_eq!(volume_daemon_step(&key_event_record(2, 114, 1)), None);
    assert_eq!(volume_daemon_step(&key_event_record(4, 115, 0)), None);
}

#[test]
fn short_buffer_is_discarded_silently() {
    let b = vec![0u8; 20];
    assert_eq!(volume_daemon_step(&b), None);
}

#[test]
fn release_and_repeat_values_still_adjust() {
    // The event value is deliberately not inspected.
    for value in [0, 1, 2, -1] {
        let b = key_event_record(1, 115, value);
        assert_eq!(volume_daemon_step(&b), Some(VolumeDirection::Up));
    }
}

#[test]
fn classify_event_matches_type_and_code() {
    let up = InputEvent { seconds: 0, microseconds: 0, event_type: 1, event_code: 115, value: 1 };
    let down = InputEvent { event_code: 114, ..up };
    let other = InputEvent { event_code: 113, ..up };
    let wrong_type = InputEvent { event_type: 3, ..up };
    assert_eq!(classify_event(&up), Some(VolumeDirection::Up));
    assert_eq!(classify_event(&down), Some(VolumeDirection::Down));
    assert_eq!(classify_event(&other), None);
    assert_eq!(classify_event(&wrong_type), None);
}

#[test]
fn adjust_command_formats_every_digit_count() {
    assert_eq!(adjust_volume_command(VolumeDirection::Up, 0), b"0%+".to_vec());
    assert_eq!(adjust_volume_command(VolumeDirection::Up, 10), b"10%+".to_vec());
    assert_eq!(adjust_volume_command(VolumeDirection::Down, 42), b"42%-".to_vec());
    assert_eq!(adjust_volume_command(VolumeDirection::Down, 255), b"255%-".to_vec());
}
