use audio_rust::control::{control_for, ProcessControl};
use audio_rust::stereo::{fill_dual_mono, stereo_frames};

#[test]
fn fill_dual_mono_writes_both_channels() {
    let mut buffer = vec![0.0f32; 6];
    fill_dual_mono(&mut buffer, &[0.1, 0.2, 0.3]);
    assert_eq!(buffer, vec![0.1, 0.1, 0.2, 0.2, 0.3, 0.3]);
    let left: Vec<f32> = buffer.iter().step_by(2).copied().collect();
    let right: Vec<f32> = buffer.iter().skip(1).step_by(2).copied().collect();
    assert_eq!(left, right);
}

#[test]
fn fill_dual_mono_empty() {
    let mut buffer: Vec<i16> = Vec::new();
    fill_dual_mono(&mut buffer, &[]);
    assert!(buffer.is_empty());
}

#[test]
fn stereo_frames_of_even_and_odd_buffers() {
    assert_eq!(stereo_frames(940), Some(470));
    assert_eq!(stereo_frames(0), Some(0));
    assert_eq!(stereo_frames(941), None);
}

#[test]
fn control_follows_running_flag() {
    assert_eq!(control_for(true), ProcessControl::Continue);
    assert_eq!(control_for(false), ProcessControl::Quit);
}
