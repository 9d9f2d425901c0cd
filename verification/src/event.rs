//! Binary event decoder: turns a fixed-size byte buffer into a structured
//! kernel input event, or rejects input of the wrong length.
//!
//! The record layout mirrors the kernel's `struct input_event` on the
//! supported 64-bit hosts: two signed 64-bit timestamp words, an unsigned
//! 16-bit event type, an unsigned 16-bit event code and a signed 32-bit
//! value, 24 bytes in all, in the host's byte order. The supported targets
//! are little-endian, so the decode is written out explicitly as a
//! little-endian (two's-complement) reinterpretation.

use vstd::prelude::*;

verus! {

use vstd::bytes::spec_u16_from_le_bytes;
use vstd::bytes::spec_u16_to_le_bytes;
use vstd::bytes::spec_u32_from_le_bytes;
use vstd::bytes::spec_u32_to_le_bytes;
use vstd::bytes::spec_u64_from_le_bytes;
use vstd::bytes::spec_u64_to_le_bytes;
use vstd::bytes::u16_from_le_bytes;
use vstd::bytes::u32_from_le_bytes;
use vstd::bytes::u64_from_le_bytes;
use vstd::bytes::lemma_auto_spec_u16_to_from_le_bytes;
use vstd::bytes::lemma_auto_spec_u32_to_from_le_bytes;
use vstd::bytes::lemma_auto_spec_u64_to_from_le_bytes;
use vstd::slice::slice_subrange;

/// Size in bytes of one kernel input-event record on the supported hosts.
pub const EVENT_SIZE: usize = 24;

/// One decoded kernel input-event record.
#[derive(Clone, Copy, Debug, PartialEq, Eq, Structural)]
pub struct InputEvent {
    /// Timestamp, whole seconds.
    pub seconds: i64,
    /// Timestamp, microsecond remainder.
    pub microseconds: i64,
    /// Kernel event class; only the key-event class matters to this daemon.
    pub event_type: u16,
    /// Which key the event is about.
    pub event_code: u16,
    /// Press / release / repeat state; carried but never inspected.
    pub value: i32,
}

/// The signed 64-bit value whose two's-complement little-endian encoding is `s`.
pub open spec fn spec_i64_from_le_bytes(s: Seq<u8>) -> i64
    recommends
        s.len() == 8,
{
    let n = spec_u64_from_le_bytes(s);
    if n < 0x8000_0000_0000_0000u64 {
        n as i64
    } else {
        (n - 0x1_0000_0000_0000_0000) as i64
    }
}

/// The two's-complement little-endian encoding of a signed 64-bit value.
pub open spec fn spec_i64_to_le_bytes(x: i64) -> Seq<u8> {
    if x >= 0 {
        spec_u64_to_le_bytes(x as u64)
    } else {
        spec_u64_to_le_bytes((x + 0x1_0000_0000_0000_0000) as u64)
    }
}

/// The signed 32-bit value whose two's-complement little-endian encoding is `s`.
pub open spec fn spec_i32_from_le_bytes(s: Seq<u8>) -> i32
    recommends
        s.len() == 4,
{
    let n = spec_u32_from_le_bytes(s);
    if n < 0x8000_0000u32 {
        n as i32
    } else {
        (n - 0x1_0000_0000) as i32
    }
}

/// The two's-complement little-endian encoding of a signed 32-bit value.
pub open spec fn spec_i32_to_le_bytes(x: i32) -> Seq<u8> {
    if x >= 0 {
        spec_u32_to_le_bytes(x as u32)
    } else {
        spec_u32_to_le_bytes((x + 0x1_0000_0000) as u32)
    }
}

fn i64_from_le_bytes(s: &[u8]) -> (x: i64)
    requires
        s@.len() == 8,
    ensures
        x == spec_i64_from_le_bytes(s@),
{
    let n = u64_from_le_bytes(s);
    if n < 0x8000_0000_0000_0000 {
        n as i64
    } else {
        let m: u64 = u64::MAX - n;
        -1 - (m as i64)
    }
}

fn i32_from_le_bytes(s: &[u8]) -> (x: i32)
    requires
        s@.len() == 4,
    ensures
        x == spec_i32_from_le_bytes(s@),
{
    let n = u32_from_le_bytes(s);
    if n < 0x8000_0000 {
        n as i32
    } else {
        let m: u32 = u32::MAX - n;
        -1 - (m as i32)
    }
}

/// The event encoded in a 24-byte record, field by field.
pub open spec fn spec_parse_input_event(b: Seq<u8>) -> InputEvent
    recommends
        b.len() == EVENT_SIZE,
{
    InputEvent {
        seconds: spec_i64_from_le_bytes(b.subrange(0, 8)),
        microseconds: spec_i64_from_le_bytes(b.subrange(8, 16)),
        event_type: spec_u16_from_le_bytes(b.subrange(16, 18)),
        event_code: spec_u16_from_le_bytes(b.subrange(18, 20)),
        value: spec_i32_from_le_bytes(b.subrange(20, 24)),
    }
}

/// The 24-byte record that encodes an event, field by field.
pub open spec fn spec_encode_input_event(e: InputEvent) -> Seq<u8> {
    spec_i64_to_le_bytes(e.seconds) + spec_i64_to_le_bytes(e.microseconds)
        + spec_u16_to_le_bytes(e.event_type) + spec_u16_to_le_bytes(e.event_code)
        + spec_i32_to_le_bytes(e.value)
}

/// Decodes one input-event record. Succeeds exactly on buffers of the record
/// size; every 24-byte pattern is a valid event, so length mismatch is the
/// only rejection cause.
pub fn parse_input_event(buffer: &[u8]) -> (r: Option<InputEvent>)
    ensures
        r is Some <==> buffer@.len() == EVENT_SIZE,
        r matches Some(e) ==> e == spec_parse_input_event(buffer@),
{
    if buffer.len() != EVENT_SIZE {
        return None;
    }
    let seconds = i64_from_le_bytes(slice_subrange(buffer, 0, 8));
    let microseconds = i64_from_le_bytes(slice_subrange(buffer, 8, 16));
    let event_type = u16_from_le_bytes(slice_subrange(buffer, 16, 18));
    let event_code = u16_from_le_bytes(slice_subrange(buffer, 18, 20));
    let value = i32_from_le_bytes(slice_subrange(buffer, 20, 24));
    Some(InputEvent { seconds, microseconds, event_type, event_code, value })
}

/// The signed and unsigned little-endian encodings invert one another.
proof fn lemma_i64_from_then_to(s: Seq<u8>)
    requires
        s.len() == 8,
    ensures
        spec_i64_to_le_bytes(spec_i64_from_le_bytes(s)) == s,
{
    lemma_auto_spec_u64_to_from_le_bytes();
}

proof fn lemma_i64_to_then_from(x: i64)
    ensures
        spec_i64_to_le_bytes(x).len() == 8,
        spec_i64_from_le_bytes(spec_i64_to_le_bytes(x)) == x,
{
    lemma_auto_spec_u64_to_from_le_bytes();
}

proof fn lemma_i32_from_then_to(s: Seq<u8>)
    requires
        s.len() == 4,
    ensures
        spec_i32_to_le_bytes(spec_i32_from_le_bytes(s)) == s,
{
    lemma_auto_spec_u32_to_from_le_bytes();
}

proof fn lemma_i32_to_then_from(x: i32)
    ensures
        spec_i32_to_le_bytes(x).len() == 4,
        spec_i32_from_le_bytes(spec_i32_to_le_bytes(x)) == x,
{
    lemma_auto_spec_u32_to_from_le_bytes();
    if x >= 0 {
        let n = x as u32;
        assert(spec_u32_to_le_bytes(n).len() == 4);
    } else {
        let n = (x + 0x1_0000_0000) as u32;
        assert(spec_u32_to_le_bytes(n).len() == 4);
        assert(n >= 0x8000_0000u32);
    }
}

/// Decoding a 24-byte record and re-encoding its five fields gives back the
/// record: every 24-byte pattern decodes, and no information is lost.
pub proof fn lemma_parse_then_encode(b: Seq<u8>)
    requires
        b.len() == EVENT_SIZE,
    ensures
        spec_encode_input_event(spec_parse_input_event(b)) == b,
{
    lemma_auto_spec_u16_to_from_le_bytes();
    lemma_i64_from_then_to(b.subrange(0, 8));
    lemma_i64_from_then_to(b.subrange(8, 16));
    lemma_i32_from_then_to(b.subrange(20, 24));
    assert(spec_encode_input_event(spec_parse_input_event(b)) =~= b);
}

/// Encoding an event and decoding the 24-byte result gives back the event:
/// the five integer fields round-trip exactly.
pub proof fn lemma_encode_then_parse(e: InputEvent)
    ensures
        spec_encode_input_event(e).len() == EVENT_SIZE,
        spec_parse_input_event(spec_encode_input_event(e)) == e,
{
    lemma_auto_spec_u16_to_from_le_bytes();
    lemma_i64_to_then_from(e.seconds);
    lemma_i64_to_then_from(e.microseconds);
    lemma_i32_to_then_from(e.value);
    let b = spec_encode_input_event(e);
    assert(b.subrange(0, 8) =~= spec_i64_to_le_bytes(e.seconds));
    assert(b.subrange(8, 16) =~= spec_i64_to_le_bytes(e.microseconds));
    assert(b.subrange(16, 18) =~= spec_u16_to_le_bytes(e.event_type));
    assert(b.subrange(18, 20) =~= spec_u16_to_le_bytes(e.event_code));
    assert(b.subrange(20, 24) =~= spec_i32_to_le_bytes(e.value));
}

} // verus!
