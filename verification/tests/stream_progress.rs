use kestrel::stream_progress::{StreamPhase, StreamProgressTracker};

#[test]
fn initial_phase_is_connecting() {
    let t = StreamProgressTracker::new(300_000, 0);
    assert_eq!(*t.phase(), StreamPhase::Connecting);
}

#[test]
fn transition_updates_phase() {
    let mut t = StreamProgressTracker::new(300_000, 0);
    t.transition(StreamPhase::WaitingFirstByte, 5);
    assert_eq!(*t.phase(), StreamPhase::WaitingFirstByte);
}

#[test]
fn poll_connecting_returns_none() {
    let mut t = StreamProgressTracker::new(300_000, 0);
    assert!(t.poll(100_000).is_none());
}

#[test]
fn first_byte_warning_after_threshold() {
    let mut t = StreamProgressTracker::new(300_000, 0);
    t.first_byte_warning_after_ms = 50;
    t.transition(StreamPhase::WaitingFirstByte, 0);
    let msg = t.poll(60).unwrap();
    assert!(!msg.is_warning);
    assert!(msg.content.contains("\u{6a21}\u{578b}"));
}

#[test]
fn first_byte_warning_fires_only_once() {
    let mut t = StreamProgressTracker::new(300_000, 0);
    t.first_byte_warning_after_ms = 50;
    t.transition(StreamPhase::WaitingFirstByte, 0);
    assert!(t.poll(60).is_some());
    assert!(t.poll(61).is_none());
}

#[test]
fn slow_warning_after_longer_threshold() {
    let mut t = StreamProgressTracker::new(300_000, 0);
    t.first_byte_warning_after_ms = 20;
    t.first_byte_slow_after_ms = 50;
    t.transition(StreamPhase::WaitingFirstByte, 0);
    let _first = t.poll(60);
    let slow = t.poll(60);
    assert!(slow.is_some());
    assert!(slow.unwrap().is_warning);
}

#[test]
fn timeout_warning_at_80_percent() {
    let mut t = StreamProgressTracker::new(200, 0);
    t.transition(StreamPhase::Streaming, 0);
    assert!(t.poll(150).is_none());
    let msg = t.poll(170).unwrap();
    assert!(msg.is_warning);
    assert!(msg.content.contains("\u{5373}\u{5c06}"));
    assert!(t.poll(190).is_none());
}

#[test]
fn on_reconnect_fires_once() {
    let mut t = StreamProgressTracker::new(300_000, 0);
    assert!(t.on_reconnect().is_some());
    assert!(t.on_reconnect().is_none());
}

#[test]
fn done_phase_no_messages() {
    let mut t = StreamProgressTracker::new(300_000, 0);
    t.transition(StreamPhase::Done, 0);
    assert!(t.poll(1_000_000).is_none());
}

#[test]
fn thinking_first_indicator() {
    let mut t = StreamProgressTracker::new(300_000, 0);
    t.thinking_first_indicator_after_ms = 50;
    t.transition(StreamPhase::Thinking, 0);
    let msg = t.poll(60).unwrap();
    assert!(!msg.is_warning);
    assert!(msg.content.contains("\u{6df1}\u{5ea6}"));
}

#[test]
fn thinking_periodic_updates() {
    let mut t = StreamProgressTracker::new(300_000, 0);
    t.thinking_first_indicator_after_ms = 20;
    t.thinking_update_interval_ms = 50;
    t.transition(StreamPhase::Thinking, 0);
    let first = t.poll(30).unwrap();
    assert!(first.content.contains("\u{6df1}\u{5ea6}"));
    assert!(t.poll(30).is_none());
    let update = t.poll(90).unwrap();
    assert!(update.content.contains("\u{4ecd}\u{5728}"));
    assert!(!update.is_warning);
}

#[test]
fn thinking_poll_before_first_indicator_is_quiet() {
    let mut t = StreamProgressTracker::new(300_000, 0);
    t.transition(StreamPhase::Thinking, 0);
    assert!(t.poll(5_000).is_none());
    assert!(t.poll(14_999).is_none());
    assert!(t.poll(15_000).is_some());
    assert!(t.poll(44_999).is_none());
    let u = t.poll(45_000).unwrap();
    assert!(u.content.contains("45s"));
}

#[test]
fn thinking_tracks_start_time() {
    let mut t = StreamProgressTracker::new(300_000, 0);
    assert!(t.thinking_started_at_ms.is_none());
    t.transition(StreamPhase::Thinking, 7);
    assert_eq!(t.thinking_started_at_ms, Some(7));
}

#[test]
fn thinking_to_streaming_keeps_start_time() {
    let mut t = StreamProgressTracker::new(300_000, 0);
    t.transition(StreamPhase::Thinking, 3);
    let start = t.thinking_started_at_ms;
    t.transition(StreamPhase::Streaming, 9);
    assert_eq!(t.thinking_started_at_ms, start);
}

#[test]
fn total_elapsed_counts_from_start() {
    let t = StreamProgressTracker::new(300_000, 100);
    assert_eq!(t.total_elapsed(350), 250);
    assert_eq!(t.total_elapsed(50), 0);
}
