use hyperx_daemon::supervisor::{wait_for_event_id_step, SupervisorAction};

#[test]
fn first_miss_announces_the_wait() {
    let (action, notified) = wait_for_event_id_step(b"?", false);
    assert_eq!(action, SupervisorAction::AnnounceWaitingAndSleep);
    assert!(notified);
}

#[test]
fn later_misses_stay_quiet() {
    let (action, notified) = wait_for_event_id_step(b"?", true);
    assert_eq!(action, SupervisorAction::SleepQuietly);
    assert!(notified);
}

#[test]
fn a_found_device_announces_the_connection() {
    let (action, _) = wait_for_event_id_step(b"event18", false);
    assert_eq!(action, SupervisorAction::AnnounceConnected);
    let (action, _) = wait_for_event_id_step(b"event18", true);
    assert_eq!(action, SupervisorAction::AnnounceConnected);
}

#[test]
fn one_waiting_notification_per_absence_streak() {
    // Drive the step as the waiting loop does, over a long absence streak
    // ended by a connection, and count every announcement.
    let polls: Vec<&[u8]> = vec![b"?", b"?", b"?", b"?", b"?", b"event18"];
    let mut notified = false;
    let mut waiting_announcements = 0;
    let mut connected_announcements = 0;
    for poll in polls {
        let (action, flag) = wait_for_event_id_step(poll, notified);
        notified = flag;
        match action {
            SupervisorAction::AnnounceWaitingAndSleep => waiting_announcements += 1,
            SupervisorAction::AnnounceConnected => {
                connected_announcements += 1;
                break;
            }
            SupervisorAction::SleepQuietly => {}
        }
    }
    assert_eq!(waiting_announcements, 1);
    assert_eq!(connected_announcements, 1);
}

#[test]
fn immediate_find_never_announces_waiting() {
    let (action, notified) = wait_for_event_id_step(b"event3", false);
    assert_eq!(action, SupervisorAction::AnnounceConnected);
    assert!(!notified);
}
