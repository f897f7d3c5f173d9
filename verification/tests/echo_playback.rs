use audio_rust::echo::{echo_delays, EchoPlayback};

#[test]
fn echo_delays_are_one_and_two_seconds() {
    assert_eq!(echo_delays(), vec![44100, 88200]);
}

#[test]
fn frame_before_any_echo() {
    let f = EchoPlayback::frame_at(10, 100_000, &[44100, 88200]).unwrap();
    assert_eq!(f.source, 10);
    assert_eq!(f.taps, vec![None, None]);
}

#[test]
fn frame_with_first_echo() {
    let f = EchoPlayback::frame_at(50_000, 100_000, &[44100, 88200]).unwrap();
    assert_eq!(f.source, 50_000);
    assert_eq!(f.taps, vec![Some(5900), None]);
}

#[test]
fn frame_with_both_echoes() {
    let f = EchoPlayback::frame_at(90_000, 100_000, &[44100, 88200]).unwrap();
    assert_eq!(f.taps, vec![Some(45900), Some(1800)]);
    let g = EchoPlayback::frame_at(44100, 100_000, &[44100]).unwrap();
    assert_eq!(g.taps, vec![Some(0)]);
}

#[test]
fn frame_past_the_take_is_silent() {
    assert!(EchoPlayback::frame_at(100, 100, &[1]).is_none());
    assert!(EchoPlayback::frame_at(0, 0, &[]).is_none());
}

#[test]
fn playback_advances_until_the_take_ends() {
    let mut p = EchoPlayback::new();
    assert_eq!(p.current(), 0);
    let a = p.next_frame(2, &[1]).unwrap();
    assert_eq!((a.source, a.taps), (0, vec![None]));
    let b = p.next_frame(2, &[1]).unwrap();
    assert_eq!((b.source, b.taps), (1, vec![Some(0)]));
    assert!(p.next_frame(2, &[1]).is_none());
    assert_eq!(p.current(), 2);
}

#[test]
fn plan_block_runs_into_silence() {
    let mut p = EchoPlayback::new();
    let plan = p.plan_block(3, &[2], 5);
    assert_eq!(plan.len(), 5);
    let sources: Vec<Option<usize>> = plan.iter().map(|f| f.as_ref().map(|f| f.source)).collect();
    assert_eq!(sources, vec![Some(0), Some(1), Some(2), None, None]);
    assert_eq!(plan[2].as_ref().unwrap().taps, vec![Some(0)]);
    assert_eq!(p.current(), 3);
    assert!(p.plan_block(3, &[2], 2).iter().all(|f| f.is_none()));
}

#[test]
fn plan_blocks_play_alike() {
    let mut a = EchoPlayback::new();
    a.plan_block(10, &[3], 4);
    a.plan_block(10, &[3], 4);
    let mut b = EchoPlayback::new();
    b.plan_block(10, &[3], 8);
    assert_eq!(a.current(), b.current());
    assert_eq!(a.current(), 8);
}
