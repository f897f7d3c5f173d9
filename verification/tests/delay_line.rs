use audio_rust::delay::{half_second_delay, DelayLine};

#[test]
fn delay_line_puts_out_silence_then_the_input() {
    let mut d = DelayLine::new(2, 0u32);
    let out = d.process_block(&[1, 2, 3, 4, 5]);
    assert_eq!(out, vec![0, 0, 1, 2, 3]);
    assert_eq!(d.process_block(&[6, 7]), vec![4, 5]);
}

#[test]
fn delay_line_sample_by_sample() {
    let mut d = DelayLine::new(3, -1i64);
    assert_eq!(d.delay_samples(), 3);
    let outs: Vec<i64> = (10..16).map(|x| d.process_sample(x)).collect();
    assert_eq!(outs, vec![-1, -1, -1, 10, 11, 12]);
    assert_eq!(d.delay_samples(), 3);
}

#[test]
fn delay_line_blocks_compose() {
    let input: Vec<u16> = (1..=11).collect();
    let mut whole = DelayLine::new(4, 0u16);
    let all = whole.process_block(&input);
    let mut split = DelayLine::new(4, 0u16);
    let mut parts = split.process_block(&input[..3]);
    parts.extend(split.process_block(&input[3..]));
    assert_eq!(all, parts);
    // both lines hold the same samples afterwards
    assert_eq!(whole.process_block(&[0, 0, 0, 0]), split.process_block(&[0, 0, 0, 0]));
}

#[test]
fn delay_line_of_one_sample() {
    let mut d = DelayLine::new(1, 0.0f32);
    assert_eq!(d.process_block(&[0.5, -0.5, 0.25]), vec![0.0, 0.5, -0.5]);
}

#[test]
fn delay_line_block_shorter_than_delay() {
    let mut d = DelayLine::new(5, 9u8);
    assert_eq!(d.process_block(&[1, 2]), vec![9, 9]);
    assert_eq!(d.process_block(&[3, 4, 5, 6]), vec![9, 9, 9, 1]);
}

#[test]
fn empty_delay_line_takes_empty_blocks() {
    let mut d = DelayLine::new(0, 0i32);
    assert_eq!(d.delay_samples(), 0);
    assert_eq!(d.process_block(&[]), Vec::<i32>::new());
}

#[test]
fn half_second_delay_values() {
    assert_eq!(half_second_delay(44100), 22050);
    assert_eq!(half_second_delay(48000), 24000);
    assert_eq!(half_second_delay(1), 0);
}
