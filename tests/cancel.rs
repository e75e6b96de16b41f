use bazel::cancel::{CancelLatch, CancelThreadAction};

fn run(actions: &[CancelThreadAction]) -> Vec<bool> {
    let mut latch = CancelLatch::new();
    actions.iter().map(|a| latch.step(*a)).collect()
}

#[test]
fn cancel_before_id_waits_for_it() {
    let sent = run(&[CancelThreadAction::Cancel, CancelThreadAction::CommandIdReceived]);
    assert_eq!(sent, vec![false, true]);
}

#[test]
fn cancel_after_id_is_sent_at_once() {
    let sent = run(&[CancelThreadAction::CommandIdReceived, CancelThreadAction::Cancel]);
    assert_eq!(sent, vec![false, true]);
}

#[test]
fn two_cancels_before_id_send_one_request() {
    let sent = run(&[
        CancelThreadAction::Cancel,
        CancelThreadAction::Cancel,
        CancelThreadAction::Nothing,
        CancelThreadAction::CommandIdReceived,
    ]);
    assert_eq!(sent.iter().filter(|s| **s).count(), 1);
    assert_eq!(sent, vec![false, false, false, true]);
}

#[test]
fn id_without_cancel_sends_nothing() {
    let sent = run(&[CancelThreadAction::CommandIdReceived, CancelThreadAction::Nothing]);
    assert_eq!(sent, vec![false, false]);
}

#[test]
fn join_stops_the_listener() {
    let mut latch = CancelLatch::new();
    assert!(latch.is_running());
    assert!(!latch.step(CancelThreadAction::Join));
    assert!(!latch.is_running());
    assert!(!latch.step(CancelThreadAction::CommandIdReceived));
    assert!(!latch.step(CancelThreadAction::Cancel));
}

#[test]
fn wake_ups_between_cancels_change_nothing() {
    let sent = run(&[
        CancelThreadAction::Nothing,
        CancelThreadAction::Cancel,
        CancelThreadAction::Nothing,
        CancelThreadAction::Cancel,
        CancelThreadAction::CommandIdReceived,
        CancelThreadAction::Nothing,
        CancelThreadAction::Join,
    ]);
    assert_eq!(sent, vec![false, false, false, false, true, false, false]);
}
