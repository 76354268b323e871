use voice_changer::rate::{clamp_buffer_size, SampleRate, MAX_BUFFER_SIZE, MIN_BUFFER_SIZE};

#[test]
fn to_hz_gives_each_rate() {
    assert_eq!(SampleRate::Rate22050.to_hz(), 22050);
    assert_eq!(SampleRate::Rate44100.to_hz(), 44100);
    assert_eq!(SampleRate::Rate48000.to_hz(), 48000);
    assert_eq!(SampleRate::Rate96000.to_hz(), 96000);
}

#[test]
fn from_hz_round_trips_and_rejects_others() {
    for rate in [
        SampleRate::Rate22050,
        SampleRate::Rate44100,
        SampleRate::Rate48000,
        SampleRate::Rate96000,
    ] {
        assert_eq!(SampleRate::from_hz(rate.to_hz()), Some(rate));
    }
    assert_eq!(SampleRate::from_hz(0), None);
    assert_eq!(SampleRate::from_hz(44101), None);
}

#[test]
fn max_delay_is_a_tenth_of_a_second() {
    assert_eq!(SampleRate::Rate22050.max_delay_samples(), 2205);
    assert_eq!(SampleRate::Rate44100.max_delay_samples(), 4410);
    assert_eq!(SampleRate::Rate48000.max_delay_samples(), 4800);
    assert_eq!(SampleRate::Rate96000.max_delay_samples(), 9600);
}

#[test]
fn fifty_ms_at_44100_is_2205_samples() {
    assert_eq!(SampleRate::Rate44100.delay_samples(50), 2205);
}

#[test]
fn delay_samples_rounds_up_and_caps() {
    assert_eq!(SampleRate::Rate44100.delay_samples(0), 0);
    assert_eq!(SampleRate::Rate22050.delay_samples(1), 23);
    assert_eq!(SampleRate::Rate44100.delay_samples(1), 45);
    assert_eq!(SampleRate::Rate48000.delay_samples(1), 48);
    assert_eq!(SampleRate::Rate48000.delay_samples(100), 4800);
    assert_eq!(SampleRate::Rate48000.delay_samples(250), 4800);
    assert_eq!(SampleRate::Rate96000.delay_samples(u32::MAX), 9600);
}

#[test]
fn buffer_size_is_clamped_to_range() {
    assert_eq!(clamp_buffer_size(0), MIN_BUFFER_SIZE);
    assert_eq!(clamp_buffer_size(63), 64);
    assert_eq!(clamp_buffer_size(64), 64);
    assert_eq!(clamp_buffer_size(256), 256);
    assert_eq!(clamp_buffer_size(2048), 2048);
    assert_eq!(clamp_buffer_size(4096), MAX_BUFFER_SIZE);
}
