use voice_changer::delay::DelayLine;
use voice_changer::rate::SampleRate;
use voice_changer::ring::RingBuffer;
use voice_changer::session::{
    frames_to_process, interleave_stereo, render_period, render_with_input, render_without_input,
    CHANNELS,
};

#[test]
fn frames_fit_the_smaller_block() {
    assert_eq!(frames_to_process(512, 256, CHANNELS), 256);
    assert_eq!(frames_to_process(512, 300, CHANNELS), 256);
    assert_eq!(frames_to_process(511, 300, CHANNELS), 255);
    assert_eq!(frames_to_process(512, 100, CHANNELS), 100);
    assert_eq!(frames_to_process(512, 0, CHANNELS), 0);
    assert_eq!(frames_to_process(7, 9, 1), 7);
}

#[test]
fn fifty_ms_delay_gives_2205_silent_frames() {
    let rate = SampleRate::Rate44100;
    let delay = rate.delay_samples(50);
    assert_eq!(delay, 2205);
    let mut line: DelayLine<f32> = DelayLine::new(rate.max_delay_samples());
    let input: Vec<f32> = (0..6000).map(|i| 0.001 * (i as f32 + 1.0)).collect();
    let mut emitted: Vec<f32> = Vec::new();
    for block in input.chunks(256) {
        let mono = render_with_input(&mut line, &block.to_vec(), 256, delay);
        let stereo = interleave_stereo(&mono, 512, 0.0f32);
        for frame in stereo.chunks(2).take(block.len()) {
            assert_eq!(frame[0], frame[1]);
            emitted.push(frame[0]);
        }
    }
    assert_eq!(emitted.len(), 6000);
    assert!(emitted[..2205].iter().all(|&s| s == 0.0));
    assert_eq!(&emitted[2205..], &input[..6000 - 2205]);
}

#[test]
fn silent_input_without_delay_renders_silence() {
    let rate = SampleRate::Rate44100;
    let mut line: DelayLine<f32> = DelayLine::new(rate.max_delay_samples());
    let block = vec![0.0f32; 256];
    let mono = render_with_input(&mut line, &block, 256, rate.delay_samples(0));
    let stereo = interleave_stereo(&mono, 512, 0.0f32);
    assert_eq!(stereo.len(), 512);
    assert!(stereo.iter().all(|s| s.abs() < 1e-3));
}

#[test]
fn short_block_is_padded_with_silence() {
    let mut line: DelayLine<i32> = DelayLine::new(10);
    let mono = render_with_input(&mut line, &vec![7, 8], 5, 0);
    assert_eq!(mono, vec![Some(7), Some(8), None, None, None]);
    assert_eq!(line.len(), 0);
}

#[test]
fn missing_block_drains_the_delay_line() {
    let mut line: DelayLine<i32> = DelayLine::new(10);
    let mono = render_with_input(&mut line, &vec![1, 2, 3, 4, 5, 6], 6, 4);
    assert_eq!(mono, vec![None, None, None, None, Some(1), Some(2)]);
    let drained = render_without_input(&mut line, 4, 1);
    assert_eq!(drained, vec![Some(3), Some(4), Some(5), None]);
    assert_eq!(line.len(), 1);
    let rest = render_without_input(&mut line, 2, 0);
    assert_eq!(rest, vec![Some(6), None]);
}

#[test]
fn stereo_duplicates_frames_and_fills_tail() {
    let mono = vec![Some(1), None, Some(3)];
    let stereo = interleave_stereo(&mono, 9, -1);
    assert_eq!(stereo, vec![1, 1, -1, -1, 3, 3, -1, -1, -1]);
}

#[test]
fn ring_write_wraps_cursor() {
    let mut ring = RingBuffer::new(4, 0i32);
    assert_eq!(ring.len(), 4);
    for x in 1..=5 {
        ring.write(x);
    }
    assert_eq!(ring.write_index(), 1);
    assert_eq!(ring.taps(1), (5, 2, 3, 4));
}

#[test]
fn ring_taps_wrap_around_both_ends() {
    let mut ring = RingBuffer::new(128, 0i32);
    for x in 0..128 {
        ring.write(x);
    }
    assert_eq!(ring.taps(0), (127, 0, 1, 2));
    assert_eq!(ring.taps(127), (126, 127, 0, 1));
    assert_eq!(ring.taps(1024), (127, 0, 1, 2));
    assert_eq!(ring.taps(1026), (1, 2, 3, 4));
}

#[test]
fn render_period_feeds_fresh_block() {
    let mut line: DelayLine<i32> = DelayLine::new(10);
    let block = vec![1, 2, 3];
    let out = render_period(&mut line, Some(&block), 8, 1, 0);
    assert_eq!(out, vec![0, 0, 1, 1, 2, 2, 0, 0]);
    assert_eq!(line.len(), 1);
}

#[test]
fn render_period_drains_without_block() {
    let mut line: DelayLine<i32> = DelayLine::new(10);
    render_period(&mut line, Some(&vec![4, 5, 6, 7]), 8, 4, 0);
    let out = render_period(&mut line, None, 7, 2, -9);
    assert_eq!(out, vec![4, 4, 5, 5, -9, -9, -9]);
    assert_eq!(line.len(), 2);
}

#[test]
fn one_ms_at_44100_gives_45_silent_frames() {
    let rate = SampleRate::Rate44100;
    let delay = rate.delay_samples(1);
    let mut line: DelayLine<i32> = DelayLine::new(rate.max_delay_samples());
    let input: Vec<i32> = (1..=100).collect();
    let mono = render_with_input(&mut line, &input, 100, delay);
    assert!(mono[..45].iter().all(|s| s.is_none()));
    assert_eq!(mono[45], Some(1));
    assert_eq!(mono[99], Some(55));
    assert_eq!(line.len(), 45);
}
