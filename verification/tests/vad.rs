use kotone::vad::{clamp_silence_ms, SilenceStopTracker, StopDecision};

fn push_n(t: &mut SilenceStopTracker, speech: bool, n: usize) -> StopDecision {
    let mut d = StopDecision::Continue;
    for _ in 0..n {
        d = t.push(speech);
    }
    d
}

#[test]
fn silence_without_speech_never_stops() {
    let mut t = SilenceStopTracker::new(700, 500);
    for _ in 0..100 {
        assert_eq!(t.push(false), StopDecision::Continue);
    }
    assert!(!t.seen_speech());
}

#[test]
fn stops_after_speech_then_threshold_silence() {
    let mut t = SilenceStopTracker::new(700, 500);
    assert_eq!(push_n(&mut t, true, 34), StopDecision::Continue);
    assert_eq!(push_n(&mut t, false, 23), StopDecision::Continue);
    assert_eq!(t.push(false), StopDecision::Stop);
}

#[test]
fn min_session_protection_delays_stop() {
    let mut t = SilenceStopTracker::new(210, 500);
    push_n(&mut t, true, 8);
    assert_eq!(push_n(&mut t, false, 7), StopDecision::Continue);
    assert_eq!(t.push(false), StopDecision::Continue);
    assert_eq!(t.push(false), StopDecision::Stop);
}

#[test]
fn speech_reset_silence_run() {
    let mut t = SilenceStopTracker::new(210, 100);
    push_n(&mut t, true, 10);
    assert_eq!(push_n(&mut t, false, 6), StopDecision::Continue);
    assert_eq!(t.push(true), StopDecision::Continue);
    assert_eq!(push_n(&mut t, false, 6), StopDecision::Continue);
    assert_eq!(t.push(false), StopDecision::Stop);
}

#[test]
fn elapsed_counts_frames_of_thirty_ms() {
    let mut t = SilenceStopTracker::new(700, 500);
    push_n(&mut t, true, 3);
    push_n(&mut t, false, 2);
    assert_eq!(t.elapsed_ms(), 150);
    assert!(t.seen_speech());
}

#[test]
fn silence_threshold_is_clamped() {
    assert_eq!(clamp_silence_ms(50), 200);
    assert_eq!(clamp_silence_ms(700), 700);
    assert_eq!(clamp_silence_ms(60_000), 5000);
}

#[test]
fn a_whole_run_counts_time_speech_and_trailing_silence() {
    let mut t = SilenceStopTracker::new(300, 500);
    let flags = [false, false, true, false, true, false, false, false, false, false];
    let mut last = StopDecision::Continue;
    for (i, &f) in flags.iter().enumerate() {
        last = t.push(f);
        assert_eq!(t.elapsed_ms(), 30 * (i as u32 + 1));
    }
    assert!(t.seen_speech());
    // five silent frames after the last speech: 150 ms < 300 ms
    assert_eq!(last, StopDecision::Continue);
    let mut quiet = SilenceStopTracker::new(0, 0);
    for _ in 0..50 {
        assert_eq!(quiet.push(false), StopDecision::Continue);
    }
    assert!(!quiet.seen_speech());
}
