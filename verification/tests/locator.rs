use hyperx_daemon::locator::{device_path, first_event_token, get_device_event_id, split_lines};

const FILTER: &[u8] = b"HyperX Cloud III Wireless Consumer Control";

#[test]
fn finds_event_token_in_matching_block() {
    let registry = b"I: Bus=0003 Vendor=03f0 Product=05b7 Version=0111\n\
N: Name=\"HyperX Cloud III Wireless Consumer Control\"\n\
P: Phys=usb-0000:00:14.0-2/input3\n\
H: Handlers=kbd event18 js0\n\
B: PROP=0\n";
    assert_eq!(get_device_event_id(registry, FILTER), b"event18".to_vec());
}

#[test]
fn unrelated_blocks_before_and_after_do_not_matter() {
    let registry = b"N: Name=\"AT Translated Set 2 keyboard\"\n\
H: Handlers=sysrq kbd event3 leds\n\
\n\
N: Name=\"HyperX Cloud III Wireless Consumer Control\"\n\
H: Handlers=kbd event18 js0\n\
\n\
N: Name=\"Video Bus\"\n\
H: Handlers=kbd event7\n";
    assert_eq!(get_device_event_id(registry, FILTER), b"event18".to_vec());
}

#[test]
fn no_matching_name_line_yields_sentinel() {
    let registry = b"N: Name=\"AT Translated Set 2 keyboard\"\n\
H: Handlers=sysrq kbd event3 leds\n\
\n\
N: Name=\"Video Bus\"\n\
H: Handlers=kbd event7\n";
    assert_eq!(get_device_event_id(registry, FILTER), b"?".to_vec());
}

#[test]
fn empty_registry_yields_sentinel() {
    assert_eq!(get_device_event_id(b"", FILTER), b"?".to_vec());
}

#[test]
fn blank_line_ends_the_capturing_block() {
    // The handlers line sits in the block after the matching name line, so
    // the blank boundary must stop the capture and yield the sentinel.
    let registry = b"N: Name=\"HyperX Cloud III Wireless Consumer Control\"\n\
\n\
N: Name=\"Video Bus\"\n\
H: Handlers=kbd event7\n";
    assert_eq!(get_device_event_id(registry, FILTER), b"?".to_vec());
}

#[test]
fn handlers_line_before_the_name_line_is_not_taken() {
    let registry = b"H: Handlers=kbd event2\n\
N: Name=\"HyperX Cloud III Wireless Consumer Control\"\n";
    assert_eq!(get_device_event_id(registry, FILTER), b"?".to_vec());
}

#[test]
fn handlers_line_without_event_token_keeps_scanning() {
    let registry = b"N: Name=\"HyperX Cloud III Wireless Consumer Control\"\n\
H: Handlers=kbd js0\n\
H: Handlers=mouse0 event9\n";
    assert_eq!(get_device_event_id(registry, FILTER), b"event9".to_vec());
}

#[test]
fn crlf_line_endings_are_accepted() {
    let registry = b"N: Name=\"HyperX Cloud III Wireless Consumer Control\"\r\n\
H: Handlers=kbd event18 js0\r\n";
    assert_eq!(get_device_event_id(registry, FILTER), b"event18".to_vec());
}

#[test]
fn first_event_token_takes_the_first_matching_token() {
    let t = first_event_token(b"H: Handlers=sysrq kbd event3 leds event5");
    assert_eq!(t, Some(b"event3".to_vec()));
}

#[test]
fn first_event_token_none_without_match() {
    assert_eq!(first_event_token(b"H: Handlers=sysrq kbd leds"), None);
    assert_eq!(first_event_token(b""), None);
}

#[test]
fn first_event_token_requires_token_start() {
    // `event` in the middle of a token does not count.
    assert_eq!(first_event_token(b"H: Handlers=bigevent7"), None);
    assert_eq!(first_event_token(b"H: Handlers=bigevent7 event8"), Some(b"event8".to_vec()));
}

#[test]
fn device_path_prefixes_the_event_id() {
    assert_eq!(device_path(b"event18"), b"/dev/input/event18".to_vec());
    assert_eq!(device_path(b""), b"/dev/input/".to_vec());
}

#[test]
fn split_lines_matches_line_reader_semantics() {
    let lines = split_lines(b"a\nb\n\nc");
    let want: Vec<Vec<u8>> = vec![b"a".to_vec(), b"b".to_vec(), b"".to_vec(), b"c".to_vec()];
    assert_eq!(lines, want);
    assert_eq!(split_lines(b""), Vec::<Vec<u8>>::new());
    assert_eq!(split_lines(b"\n"), vec![b"".to_vec()]);
    assert_eq!(split_lines(b"x\r\ny"), vec![b"x".to_vec(), b"y".to_vec()]);
}
