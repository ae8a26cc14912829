use dab_radio::dsp::decoder::{AUDIO_BITS_PER_SAMPLE, AUDIO_CHANNELS, AUDIO_SAMPLE_RATE};
use dab_radio::streaming::audio_stream::frames_to_wav_header;

#[test]
fn wav_header_layout() {
    let h = frames_to_wav_header(AUDIO_SAMPLE_RATE, AUDIO_CHANNELS, AUDIO_BITS_PER_SAMPLE);
    let expected: Vec<u8> = vec![
        b'R', b'I', b'F', b'F', 0xFF, 0xFF, 0xFF, 0xFF, b'W', b'A', b'V', b'E',
        b'f', b'm', b't', b' ', 16, 0, 0, 0, 1, 0, 2, 0,
        0x80, 0xBB, 0x00, 0x00, // 48000
        0x00, 0xEE, 0x02, 0x00, // 192000 bytes per second
        4, 0, 16, 0,
        b'd', b'a', b't', b'a', 0xFF, 0xFF, 0xFF, 0xFF,
    ];
    assert_eq!(h, expected);
    assert_eq!(h.len(), 44);
}

#[test]
fn wav_header_mono_8bit() {
    let h = frames_to_wav_header(8000, 1, 8);
    assert_eq!(&h[22..24], &[1, 0]);
    assert_eq!(&h[24..28], &[0x40, 0x1F, 0, 0]);
    assert_eq!(&h[28..32], &[0x40, 0x1F, 0, 0]);
    assert_eq!(&h[32..34], &[1, 0]);
    assert_eq!(&h[34..36], &[8, 0]);
}

use dab_radio::dsp::decoder::AudioFrame;
use dab_radio::streaming::audio_stream::{AudioStreamManager, FRAME_BUFFER_CAPACITY};

fn frame(n: u64) -> AudioFrame {
    AudioFrame { pcm_data: vec![n as i16; 4], sample_rate: 48_000, channels: 2, timestamp_ms: n * 20, frame_number: n }
}

#[test]
fn stream_ignores_frames_while_stopped() {
    let mut m = AudioStreamManager::new();
    m.push_frame(frame(0));
    let s = m.stats();
    assert!(!s.is_active);
    assert_eq!(s.frames_delivered, 0);
    assert_eq!(s.buffer_underruns, 0);
    assert!(m.next_frame(1).is_none());
}

#[test]
fn stream_delivers_frames_in_order() {
    let mut m = AudioStreamManager::new();
    m.start();
    m.push_frame(frame(1));
    m.push_frame(frame(2));
    assert_eq!(m.stats().frames_delivered, 2);
    assert_eq!(m.next_frame(1).unwrap().frame_number, 1);
    assert_eq!(m.next_frame(1).unwrap().frame_number, 2);
    assert!(m.next_frame(1).is_none());
}

#[test]
fn full_stream_drops_oldest_and_counts_underrun() {
    let mut m = AudioStreamManager::new();
    m.start();
    for n in 0..FRAME_BUFFER_CAPACITY as u64 {
        m.push_frame(frame(n));
    }
    assert_eq!(m.stats().frames_delivered, 50);
    m.push_frame(frame(999));
    let s = m.stats();
    assert_eq!(s.frames_delivered, 50);
    assert_eq!(s.buffer_underruns, 1);
    // the oldest went to make room for the new frame
    let mut seen = Vec::new();
    while let Some(f) = m.next_frame(1) {
        seen.push(f.frame_number);
    }
    let mut expected: Vec<u64> = (1..50).collect();
    expected.push(999);
    assert_eq!(seen, expected);
}

#[test]
fn stopping_drains_the_stream() {
    let mut m = AudioStreamManager::new();
    m.start();
    m.push_frame(frame(1));
    m.push_frame(frame(2));
    m.stop();
    let s = m.stats();
    assert!(!s.is_active);
    assert_eq!(s.frames_delivered, 2);
    assert!(m.next_frame(1).is_none());
}
