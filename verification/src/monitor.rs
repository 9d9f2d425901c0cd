//! Event stream monitor: the per-record decision of the daemon's read loop.
//!
//! The surrounding loop reads fixed-size chunks from the device node and
//! hands each chunk, as read, to [`volume_daemon_step`]; when it answers with
//! a direction, the loop invokes the external volume-control utility with the
//! relative adjustment string built by [`adjust_volume_command`]. Read errors
//! and end-of-stream end the loop and return control to the reconnect
//! supervisor; they never reach this module.

use vstd::prelude::*;

verus! {

use crate::event::EVENT_SIZE;
use crate::event::InputEvent;
use crate::event::parse_input_event;
use crate::event::spec_parse_input_event;

/// Key code that raises the volume.
pub const VOLUME_UP_KEY: u16 = 115;

/// Key code that lowers the volume.
pub const VOLUME_DOWN_KEY: u16 = 114;

/// Event type of key events, the only class this daemon acts on.
pub const KEY_EVENT_TYPE: u16 = 1;

/// Volume step, in percent, per recognised key event.
pub const INCREMENT: u8 = 1;

/// Which way a recognised key event moves the volume.
#[derive(Clone, Copy, Debug, PartialEq, Eq, Structural)]
pub enum VolumeDirection {
    Up,
    Down,
}

/// The direction a decoded event asks for: up on the volume-up key, down on
/// the volume-down key, both only for key events; nothing otherwise. The
/// event's value (press, release or repeat) is deliberately not inspected:
/// every delivered key event of a watched code triggers an adjustment.
pub open spec fn spec_classify_event(e: InputEvent) -> Option<VolumeDirection> {
    if e.event_type == KEY_EVENT_TYPE && e.event_code == VOLUME_UP_KEY {
        Some(VolumeDirection::Up)
    } else if e.event_type == KEY_EVENT_TYPE && e.event_code == VOLUME_DOWN_KEY {
        Some(VolumeDirection::Down)
    } else {
        None
    }
}

/// Maps a decoded event to a volume direction.
pub fn classify_event(e: &InputEvent) -> (r: Option<VolumeDirection>)
    ensures
        r == spec_classify_event(*e),
        r == Some(VolumeDirection::Up) <==> (e.event_type == KEY_EVENT_TYPE && e.event_code
            == VOLUME_UP_KEY),
        r == Some(VolumeDirection::Down) <==> (e.event_type == KEY_EVENT_TYPE && e.event_code
            == VOLUME_DOWN_KEY),
{
    if e.event_type == KEY_EVENT_TYPE {
        if e.event_code == VOLUME_UP_KEY {
            Some(VolumeDirection::Up)
        } else if e.event_code == VOLUME_DOWN_KEY {
            Some(VolumeDirection::Down)
        } else {
            None
        }
    } else {
        None
    }
}

/// The decision the monitor takes for one chunk read from the device node:
/// adjust the volume in the returned direction, or do nothing. A chunk that
/// is not exactly one record long is discarded silently, and so is every
/// record that is not a key event of a watched code.
pub fn volume_daemon_step(buffer: &[u8]) -> (r: Option<VolumeDirection>)
    ensures
        r == Some(VolumeDirection::Up) <==> (buffer@.len() == EVENT_SIZE
            && spec_parse_input_event(buffer@).event_type == KEY_EVENT_TYPE
            && spec_parse_input_event(buffer@).event_code == VOLUME_UP_KEY),
        r == Some(VolumeDirection::Down) <==> (buffer@.len() == EVENT_SIZE
            && spec_parse_input_event(buffer@).event_type == KEY_EVENT_TYPE
            && spec_parse_input_event(buffer@).event_code == VOLUME_DOWN_KEY),
{
    match parse_input_event(buffer) {
        Some(e) => classify_event(&e),
        None => None,
    }
}

/// The decimal digits of a byte-sized number, without leading zeroes.
pub open spec fn spec_decimal_u8(n: u8) -> Seq<u8> {
    if n < 10 {
        seq![(48 + n) as u8]
    } else if n < 100 {
        seq![(48 + n / 10) as u8, (48 + n % 10) as u8]
    } else {
        seq![(48 + n / 100) as u8, (48 + (n / 10) % 10) as u8, (48 + n % 10) as u8]
    }
}

/// The relative adjustment string handed to the volume-control utility:
/// the increment in percent, `%`, then `+` or `-` (for instance `1%+`).
pub open spec fn spec_adjust_command(direction: VolumeDirection, increment: u8) -> Seq<u8> {
    spec_decimal_u8(increment) + seq![
        37u8,
        if direction == VolumeDirection::Up {
            43u8
        } else {
            45u8
        },
    ]
}

/// Builds the relative adjustment argument for the volume-control utility.
pub fn adjust_volume_command(direction: VolumeDirection, increment: u8) -> (r: Vec<u8>)
    ensures
        r@ == spec_adjust_command(direction, increment),
{
    let mut r: Vec<u8> = Vec::new();
    if increment < 10 {
        r.push(48 + increment);
    } else if increment < 100 {
        r.push(48 + increment / 10);
        r.push(48 + increment % 10);
    } else {
        r.push(48 + increment / 100);
        r.push(48 + (increment / 10) % 10);
        r.push(48 + increment % 10);
    }
    assert(r@ =~= spec_decimal_u8(increment));
    r.push(37);
    match direction {
        VolumeDirection::Up => r.push(43),
        VolumeDirection::Down => r.push(45),
    }
    assert(r@ =~= spec_adjust_command(direction, increment));
    r
}

} // verus!
