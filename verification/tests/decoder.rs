use dab_radio::dsp::decoder::{AudioFrame, DabDecoder};
use dab_radio::dsp::error_correction::DspError;

fn ramp_tone(n: u64, i: usize) -> i16 {
    (n as i16) * 1000 + i as i16
}

#[test]
fn test_decoder_lifecycle() {
    let mut decoder = DabDecoder::new(0x1001, 0);
    assert!(!decoder.is_decoding());

    decoder.start().unwrap();
    assert!(decoder.is_decoding());

    decoder.stop();
    assert!(!decoder.is_decoding());
}

#[test]
fn test_silence_frame() {
    let mut decoder = DabDecoder::new(0x1001, 0);
    let frame = decoder.generate_silence_frame();

    assert!(frame.pcm_data.iter().all(|&s| s == 0));
    assert_eq!(frame.sample_rate, 48000);
    assert_eq!(frame.channels, 2);
}

#[test]
fn silence_frames_are_numbered() {
    let mut decoder = DabDecoder::new(0x1001, 0);
    let first = decoder.generate_silence_frame();
    let second = decoder.generate_silence_frame();
    assert_eq!(first.frame_number, 1);
    assert_eq!(first.timestamp_ms, 20);
    assert_eq!(second.frame_number, 2);
    assert_eq!(second.timestamp_ms, 40);
    assert_eq!(first.pcm_data.len(), 1920);
    assert_eq!(decoder.frame_count(), 2);
}

#[test]
fn inactive_decoder_refuses_superframes() {
    let mut decoder = DabDecoder::new(0x1001, 0);
    let r = decoder.process_superframe(&[0u8; 100], &ramp_tone);
    assert!(matches!(r, Err(DspError::DecoderInactive)));
    assert_eq!(decoder.frame_count(), 0);
}

#[test]
fn short_superframe_gives_no_frames() {
    let mut decoder = DabDecoder::new(0x1001, 0);
    decoder.start().unwrap();
    let frames = decoder.process_superframe(&[0u8; 23], &ramp_tone).unwrap();
    assert!(frames.is_empty());
    assert_eq!(decoder.frame_count(), 0);
}

#[test]
fn access_unit_count_follows_header_flags() {
    let mut decoder = DabDecoder::new(0x1001, 0);
    decoder.start().unwrap();
    // neither DAC-rate nor SBR: 4 units
    assert_eq!(decoder.process_superframe(&[0x00; 30], &ramp_tone).unwrap().len(), 4);
    // SBR only: 3 units
    assert_eq!(decoder.process_superframe(&[0x20; 30], &ramp_tone).unwrap().len(), 3);
    // DAC rate only: 3 units
    assert_eq!(decoder.process_superframe(&[0x40; 30], &ramp_tone).unwrap().len(), 3);
    // both: 2 units
    assert_eq!(decoder.process_superframe(&[0x60; 30], &ramp_tone).unwrap().len(), 2);
    assert_eq!(decoder.frame_count(), 12);
}

#[test]
fn decoded_frames_carry_the_tone() {
    let mut decoder = DabDecoder::new(0x1001, 0);
    decoder.start().unwrap();
    let frames = decoder.process_superframe(&[0x60; 24], &ramp_tone).unwrap();
    assert_eq!(frames.len(), 2);
    for (k, f) in frames.iter().enumerate() {
        let n = k as u64 + 1;
        assert_eq!(f.frame_number, n);
        assert_eq!(f.timestamp_ms, 20 * n);
        assert_eq!(f.sample_rate, 48000);
        assert_eq!(f.channels, 2);
        assert_eq!(f.pcm_data.len(), 1920);
        assert_eq!(f.pcm_data[0], ramp_tone(n, 0));
        assert_eq!(f.pcm_data[1], ramp_tone(n, 0));
        assert_eq!(f.pcm_data[2 * 17], ramp_tone(n, 17));
        assert_eq!(f.pcm_data[2 * 17 + 1], ramp_tone(n, 17));
    }
    // restarting resets the counter
    decoder.start().unwrap();
    assert_eq!(decoder.frame_count(), 0);
    assert_eq!(decoder.rs_stats(), (0, 0));
}

#[test]
fn wav_bytes_are_little_endian() {
    let frame = AudioFrame {
        pcm_data: vec![0, 16384, -16384, 32767, -1],
        sample_rate: 48000,
        channels: 2,
        timestamp_ms: 0,
        frame_number: 0,
    };
    assert_eq!(
        frame.to_wav_bytes(),
        vec![0x00, 0x00, 0x00, 0x40, 0x00, 0xC0, 0xFF, 0x7F, 0xFF, 0xFF]
    );
}
