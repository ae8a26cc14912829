use dab_radio::dsp::ensemble_parser::{parse_ensemble, parse_fig0, parse_fig1, ProgrammeType};
use dab_radio::dsp::error_correction::DspError;
use dab_radio::dsp::sdr_interface::{IqBuffer, Timestamp};

fn now() -> Timestamp {
    let t = chrono::Utc::now();
    Timestamp { secs: t.timestamp(), nanos: t.timestamp_subsec_nanos() }
}

#[test]
fn test_programme_type_from_code() {
    assert!(matches!(
        ProgrammeType::from_pty_code(1),
        ProgrammeType::News
    ));
    assert!(matches!(
        ProgrammeType::from_pty_code(10),
        ProgrammeType::PopMusic
    ));
    assert!(matches!(
        ProgrammeType::from_pty_code(255),
        ProgrammeType::NoProgrammeType
    ));
}

#[test]
fn programme_type_names() {
    assert_eq!(ProgrammeType::from_pty_code(0).to_string(), "None");
    assert_eq!(ProgrammeType::from_pty_code(14).to_string(), "SeriousClassical");
    assert_eq!(ProgrammeType::from_pty_code(29).to_string(), "Documentary");
    assert_eq!(ProgrammeType::from_pty_code(30).to_string(), "None");
    assert_eq!(ProgrammeType::ChildrensProgrammes.to_string(), "ChildrensProgrammes");
}

#[test]
fn test_parse_ensemble_known_freq() {
    let iq = IqBuffer {
        samples: vec![128; 2048],
        center_freq: 202_928_000,
        sample_rate: 2_048_000,
        timestamp: now(),
    };

    let result = parse_ensemble(&iq).unwrap();
    assert!(result.is_some());

    let ens = result.unwrap();
    assert_eq!(ens.label, "Sydney DAB+");
    assert!(!ens.services.is_empty());
}

#[test]
fn test_parse_ensemble_unknown_freq() {
    let iq = IqBuffer {
        samples: vec![128; 2048],
        center_freq: 150_000_000,
        sample_rate: 2_048_000,
        timestamp: now(),
    };

    let result = parse_ensemble(&iq).unwrap();
    assert!(result.is_none());
}

#[test]
fn parse_ensemble_details() {
    let iq = IqBuffer {
        samples: vec![],
        center_freq: 206_400_000, // within 100 kHz of Melbourne's 206.352 MHz
        sample_rate: 2_048_000,
        timestamp: now(),
    };
    let ens = parse_ensemble(&iq).unwrap().unwrap();
    assert_eq!(ens.label, "Melbourne DAB+");
    assert_eq!(ens.ensemble_id, (206_352u32 % 65536) as u16);
    assert_eq!(ens.country_id, 0x09);
    assert_eq!(ens.services.len(), 11);
    assert_eq!(ens.num_sub_channels, 11);
    let s = &ens.services[9];
    assert_eq!(s.label, "3AW");
    assert_eq!(s.service_id, 0x400A);
    assert_eq!(s.program_type, "Talk");
    assert_eq!(s.bitrate, 48);
    assert_eq!(s.sub_channel_id, 9);
    assert_eq!(s.protection_level, 3);
    assert!(s.is_audio);

    // exactly 100 kHz away is too far
    let far = IqBuffer { samples: vec![], center_freq: 206_452_000, sample_rate: 0, timestamp: now() };
    assert!(parse_ensemble(&far).unwrap().is_none());
    let perth = IqBuffer { samples: vec![], center_freq: 211_648_000, sample_rate: 0, timestamp: now() };
    let p = parse_ensemble(&perth).unwrap().unwrap();
    assert_eq!(p.label, "Perth DAB+");
    assert_eq!(p.services[5].program_type, "RockMusic");
}

#[test]
fn fig0_hands_back_its_bytes() {
    assert!(matches!(parse_fig0(&[]), Err(DspError::EmptyFig0)));
    assert_eq!(parse_fig0(&[0x21, 0x05, 0x07]).unwrap(), vec![0x21, 0x05, 0x07]);
}

#[test]
fn fig1_labels() {
    assert!(matches!(parse_fig1(&[]), Err(DspError::Fig1TooShort)));
    assert!(matches!(parse_fig1(&[0x00]), Err(DspError::Fig1TooShort)));
    assert_eq!(parse_fig1(b"\x00  ABC Classic  ").unwrap(), "ABC Classic");
    assert_eq!(parse_fig1(b"\xF0triple j\t\n").unwrap(), "triple j");
    assert_eq!(parse_fig1(b"\x30   ").unwrap(), "");
    // invalid UTF-8 is replaced, not refused
    assert_eq!(parse_fig1(&[0x00, b'A', 0xFF, b'B']).unwrap(), "A\u{FFFD}B");
}
