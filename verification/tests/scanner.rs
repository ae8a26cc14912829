use dab_radio::dsp::ensemble_parser::{EnsembleInfo, ServiceInfo};
use dab_radio::dsp::scanner::{ensemble_stations, next_pass_blocks};
use dab_radio::dsp::sdr_interface::Timestamp;

#[test]
fn next_pass_names_blocks_and_merges_neighbours() {
    let detected = vec![202_928_000, 202_928_000, 100, 206_352_000];
    let weak = vec![("9C", 206_352_000), ("5A", 174_928_000)];
    let blocks = next_pass_blocks(&detected, &weak, true);
    assert_eq!(blocks, vec![("9A", 202_928_000), ("", 100), ("9C", 206_352_000), ("5A", 174_928_000)]);
}

#[test]
fn next_pass_without_retry_skips_weak_blocks() {
    let detected = vec![174_928_000];
    let weak = vec![("9C", 206_352_000)];
    assert_eq!(next_pass_blocks(&detected, &weak, false), vec![("5A", 174_928_000)]);
    assert!(next_pass_blocks(&Vec::new(), &weak, false).is_empty());
}

#[test]
fn next_pass_keeps_repeats_that_are_not_neighbours() {
    let detected = vec![174_928_000, 202_928_000, 174_928_000];
    let blocks = next_pass_blocks(&detected, &Vec::new(), true);
    assert_eq!(blocks, vec![("5A", 174_928_000), ("9A", 202_928_000), ("5A", 174_928_000)]);
}

#[test]
fn ensemble_services_become_stations() {
    let ens = EnsembleInfo {
        ensemble_id: 0x1001,
        label: "Sydney DAB+".to_string(),
        country_id: 1,
        services: vec![
            ServiceInfo {
                service_id: 0x2001,
                label: "triple j".to_string(),
                program_type: "PopMusic".to_string(),
                is_audio: true,
                sub_channel_id: 1,
                bitrate: 64,
                protection_level: 3,
            },
            ServiceInfo {
                service_id: 0x2002,
                label: "ABC Classic".to_string(),
                program_type: "ClassicalMusic".to_string(),
                is_audio: true,
                sub_channel_id: 2,
                bitrate: 96,
                protection_level: 3,
            },
        ],
        num_sub_channels: 2,
    };
    let now = Timestamp { secs: 1_700_000_000, nanos: 0 };
    let stations = ensemble_stations(&ens, 202_928_000, "9A", 0.5f32.to_bits(), &vec![11, 22], now);
    assert_eq!(stations.len(), 2);
    assert_eq!(stations[0].id, 11);
    assert_eq!(stations[0].name, "triple j");
    assert_eq!(stations[0].ensemble_name, "Sydney DAB+");
    assert_eq!(stations[0].ensemble_id, 0x1001);
    assert_eq!(stations[1].service_id, 0x2002);
    assert_eq!(stations[1].frequency, 202_928_000);
    assert_eq!(stations[1].block_name, "9A");
    assert_eq!(stations[1].program_type, "ClassicalMusic");
    assert_eq!(stations[1].bitrate, 96);
    assert_eq!(stations[1].codec, "HE-AAC v2");
    assert_eq!(stations[1].signal_strength_bits, 0.5f32.to_bits());
    assert!(stations[1].is_active);
    assert_eq!(stations[1].last_seen, now);
}
