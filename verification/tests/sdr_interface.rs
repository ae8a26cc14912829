use dab_radio::dsp::sdr_interface::{
    au_dab_blocks, is_known_au_frequency, IqBuffer, SdrDevice, Timestamp, AUTO_GAIN,
    DAB_SAMPLE_RATE, DEFAULT_GAIN,
};

#[test]
fn test_known_au_frequency() {
    assert!(is_known_au_frequency(202_928_000)); // Block 9A
    assert!(is_known_au_frequency(206_352_000)); // Block 9C
    assert!(!is_known_au_frequency(150_000_000)); // Not a DAB block
}

#[test]
fn known_frequency_tolerance() {
    assert!(is_known_au_frequency(202_928_000 + 99_999));
    assert!(!is_known_au_frequency(202_928_000 + 100_000));
    assert!(is_known_au_frequency(239_200_000 - 99_999));
    assert!(!is_known_au_frequency(0));
    assert!(!is_known_au_frequency(u32::MAX));
}

#[test]
fn block_table() {
    let blocks = au_dab_blocks();
    assert_eq!(blocks.len(), 38);
    assert_eq!(blocks[0], ("5A", 174_928_000));
    assert_eq!(blocks[16], ("9A", 202_928_000));
    assert_eq!(blocks[37], ("13F", 239_200_000));
}

#[test]
fn device_settings() {
    let mut dev = SdrDevice::open(3).unwrap();
    assert_eq!(dev.device_index(), 3);
    assert_eq!(dev.sample_rate(), DAB_SAMPLE_RATE);
    assert_eq!(dev.center_freq(), 0);
    assert_eq!(dev.gain(), DEFAULT_GAIN);
    assert!(dev.is_open());
    assert!(!dev.is_streaming());

    dev.set_frequency(202_928_000).unwrap();
    assert_eq!(dev.center_freq(), 202_928_000);
    dev.set_gain(125).unwrap();
    assert_eq!(dev.gain(), 125);
    dev.set_auto_gain().unwrap();
    assert_eq!(dev.gain(), AUTO_GAIN);

    dev.start_streaming().unwrap();
    assert!(dev.is_streaming());
    dev.stop_streaming();
    assert!(!dev.is_streaming());

    dev.start_streaming().unwrap();
    dev.close();
    assert!(!dev.is_open());
    assert!(!dev.is_streaming());
    assert_eq!(dev.center_freq(), 202_928_000);
}

#[test]
fn iq_buffer_sample_count() {
    let buf = IqBuffer {
        samples: vec![0, 0, 127, 127, 255],
        center_freq: 202_928_000,
        sample_rate: DAB_SAMPLE_RATE,
        timestamp: Timestamp { secs: 0, nanos: 0 },
    };
    assert_eq!(buf.num_samples(), 2);
}

use dab_radio::dsp::sdr_interface::{devices_from_rtl_test, devices_from_rtl_test_output, SdrError};

#[test]
fn reads_tag_samples_with_tuning_and_time() {
    let mut dev = SdrDevice::open(0).unwrap();
    dev.set_frequency(202_928_000).unwrap();
    let at = Timestamp { secs: 10, nanos: 20 };
    let buf = dev.read_samples(vec![1, 2, 3, 4], at).unwrap();
    assert_eq!(buf.samples, vec![1, 2, 3, 4]);
    assert_eq!(buf.center_freq, 202_928_000);
    assert_eq!(buf.sample_rate, DAB_SAMPLE_RATE);
    assert_eq!(buf.timestamp, at);
    assert_eq!(buf.num_samples(), 2);
    dev.close();
    assert!(matches!(dev.read_samples(vec![0, 0], at), Err(SdrError::DeviceNotOpen)));
}

#[test]
fn rtl_test_output_lists_devices() {
    let out = "Found 1 device(s):\r\n  0:  Realtek, RTL2838UHIDIR, SN: 00000001\r\n\nUsing device 0: Generic RTL2832U OEM\nFound Rafael Micro R820T tuner\n";
    assert_eq!(
        devices_from_rtl_test(out),
        vec![
            "Found 1 device(s):".to_string(),
            "0:  Realtek, RTL2838UHIDIR, SN: 00000001".to_string(),
            "Found Rafael Micro R820T tuner".to_string(),
        ]
    );
    assert!(devices_from_rtl_test("No supported devices found.\n").is_empty());
    assert!(devices_from_rtl_test("").is_empty());
}

#[test]
fn rtl_test_bytes_are_read_as_text() {
    let devices = devices_from_rtl_test_output(b"Found 1 device(s):\n", b"  0:  Realtek, RTL2838\xFF\n");
    assert_eq!(devices, vec!["Found 1 device(s):".to_string(), "0:  Realtek, RTL2838\u{FFFD}".to_string()]);
    assert!(devices_from_rtl_test_output(b"", b"usb_claim_interface error\n").is_empty());
}
