//! Reconnect supervisor: decides, for each poll of the device locator, what
//! the waiting loop does next.
//!
//! The surrounding loop calls the locator once per backoff interval and hands
//! each result to [`wait_for_event_id_step`] together with a flag recording
//! whether the "waiting" notification has already been sent in the current
//! absence streak. The step answers with the action to take — announce the
//! connection and hand the identifier to the caller, announce that the daemon
//! is waiting and sleep, or sleep quietly — and with the flag for the next
//! poll. The flag starts false each time a new supervisor cycle begins, so
//! the "waiting" notification fires at most once per unbroken absence streak.

use vstd::prelude::*;

verus! {

use crate::locator::spec_sentinel;

/// What the waiting loop does after one poll of the device locator.
#[derive(Clone, Copy, Debug, PartialEq, Eq, Structural)]
pub enum SupervisorAction {
    /// A device was found: announce the connection and yield the identifier.
    AnnounceConnected,
    /// First miss of a streak: announce the wait, then sleep one backoff.
    AnnounceWaitingAndSleep,
    /// A later miss of the same streak: sleep one backoff, announce nothing.
    SleepQuietly,
}

/// The step announces the wait: the locator returned the sentinel and no
/// announcement was made yet in this streak.
pub open spec fn spec_announces_waiting(event_id: Seq<u8>, already_notified: bool) -> bool {
    event_id == spec_sentinel() && !already_notified
}

/// The already-notified flag handed to the next poll.
pub open spec fn spec_flag_after(event_id: Seq<u8>, already_notified: bool) -> bool {
    already_notified || event_id == spec_sentinel()
}

/// One decision of the reconnect supervisor, for one locator result.
pub fn wait_for_event_id_step(event_id: &[u8], already_notified: bool) -> (r: (
    SupervisorAction,
    bool,
))
    ensures
        r.0 == SupervisorAction::AnnounceConnected <==> event_id@ != spec_sentinel(),
        r.0 == SupervisorAction::AnnounceWaitingAndSleep <==> spec_announces_waiting(
            event_id@,
            already_notified,
        ),
        r.0 == SupervisorAction::SleepQuietly <==> (event_id@ == spec_sentinel()
            && already_notified),
        r.1 == spec_flag_after(event_id@, already_notified),
{
    let is_sentinel = event_id.len() == 1 && event_id[0] == 63u8;
    proof {
        if is_sentinel {
            assert(event_id@ =~= spec_sentinel());
        } else {
            if event_id@ == spec_sentinel() {
                assert(event_id@.len() == 1 && event_id@[0] == 63u8);
            }
        }
    }
    if !is_sentinel {
        (SupervisorAction::AnnounceConnected, already_notified)
    } else if !already_notified {
        (SupervisorAction::AnnounceWaitingAndSleep, true)
    } else {
        (SupervisorAction::SleepQuietly, true)
    }
}

/// How many "waiting" announcements the supervisor makes over a run of polls
/// that starts with the given flag. A poll that finds the device ends the
/// cycle, so later polls belong to a new cycle and are not counted here.
pub open spec fn spec_waiting_announcements(polls: Seq<Seq<u8>>, already_notified: bool) -> nat
    decreases polls.len(),
{
    if polls.len() == 0 {
        0
    } else if polls[0] == spec_sentinel() {
        (if spec_announces_waiting(polls[0], already_notified) {
            1nat
        } else {
            0nat
        }) + spec_waiting_announcements(polls.skip(1), spec_flag_after(polls[0], already_notified))
    } else {
        0
    }
}

/// How many "connected" announcements the supervisor makes over a run of
/// polls: none until the device appears, one when it does, and the cycle ends
/// there.
pub open spec fn spec_connected_announcements(polls: Seq<Seq<u8>>) -> nat
    decreases polls.len(),
{
    if polls.len() == 0 {
        0
    } else if polls[0] == spec_sentinel() {
        spec_connected_announcements(polls.skip(1))
    } else {
        1
    }
}

proof fn lemma_no_waiting_announcement_when_notified(polls: Seq<Seq<u8>>)
    ensures
        spec_waiting_announcements(polls, true) == 0,
    decreases polls.len(),
{
    if polls.len() > 0 && polls[0] == spec_sentinel() {
        lemma_no_waiting_announcement_when_notified(polls.skip(1));
    }
}

/// The "waiting" notification fires exactly once per unbroken streak of
/// sentinel results, regardless of the streak's length: once when the streak
/// is nonempty, never when the cycle's first poll already finds the device.
pub proof fn lemma_waiting_announced_once_per_streak(polls: Seq<Seq<u8>>)
    ensures
        spec_waiting_announcements(polls, false) == if polls.len() > 0 && polls[0]
            == spec_sentinel() {
            1nat
        } else {
            0nat
        },
{
    if polls.len() > 0 && polls[0] == spec_sentinel() {
        lemma_no_waiting_announcement_when_notified(polls.skip(1));
    }
}

/// Exactly one "connected" notification per transition from absent to
/// present: a cycle that sees the device at some poll announces the
/// connection exactly once.
pub proof fn lemma_connected_announced_once(polls: Seq<Seq<u8>>)
    requires
        exists|i: int| 0 <= i < polls.len() && polls[i] != spec_sentinel(),
    ensures
        spec_connected_announcements(polls) == 1,
    decreases polls.len(),
{
    if polls[0] == spec_sentinel() {
        let i = choose|i: int| 0 <= i < polls.len() && polls[i] != spec_sentinel();
        assert(polls.skip(1)[i - 1] == polls[i]);
        lemma_connected_announced_once(polls.skip(1));
    }
}

} // verus!
