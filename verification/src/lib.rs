//! Core logic of a small daemon that watches a USB audio peripheral's
//! input-event node, recognises the volume-up / volume-down key codes, and
//! drives an external volume-control utility.
//!
//! The crate holds the pure parts: decoding fixed-layout input-event records,
//! locating the device's event node in the input-device registry text, the
//! reconnect supervisor's notification decisions, and the per-record decision
//! of the event-stream monitor. A thin unverified shell performs the actual
//! file reads, sleeps and external-command invocations around these functions.

pub mod event;
pub mod locator;
pub mod monitor;
pub mod supervisor;
