use chrono::Utc;
use dab_radio::dsp::sdr_interface::Timestamp;
use dab_radio::services::station_registry::{
    Station, StationMetadata, StationRegistry, SILENT_AUDIO_LEVEL_DB_BITS,
};
use uuid::Uuid;

fn now() -> Timestamp {
    let t = Utc::now();
    Timestamp { secs: t.timestamp(), nanos: t.timestamp_subsec_nanos() }
}

fn make_station(name: &str, service_id: u32) -> Station {
    Station {
        id: Uuid::new_v4().as_u128(),
        name: name.to_string(),
        ensemble_name: "Test Ensemble".to_string(),
        ensemble_id: 1000,
        service_id,
        frequency: 202_928_000,
        block_name: "9A".to_string(),
        signal_strength_bits: 0.8f32.to_bits(),
        program_type: "PopMusic".to_string(),
        is_active: true,
        bitrate: 64,
        codec: "HE-AAC v2".to_string(),
        last_seen: now(),
    }
}

#[test]
fn test_add_and_retrieve() {
    let mut registry = StationRegistry::new();
    let station = make_station("triple j", 0x1001);
    let id = station.id;

    registry.upsert_station(station);
    assert_eq!(registry.station_count(), 1);

    let retrieved = registry.get_station(id).unwrap();
    assert_eq!(retrieved.name, "triple j");
}

#[test]
fn test_get_all_sorted() {
    let mut registry = StationRegistry::new();
    registry.upsert_station(make_station("ZZZ", 0x1001));
    registry.upsert_station(make_station("AAA", 0x1002));
    registry.upsert_station(make_station("MMM", 0x1003));

    let all = registry.get_all_stations();
    assert_eq!(all[0].name, "AAA");
    assert_eq!(all[1].name, "MMM");
    assert_eq!(all[2].name, "ZZZ");
}

#[test]
fn test_update_dls() {
    let mut registry = StationRegistry::new();
    let station = make_station("triple j", 0x1001);
    let id = station.id;
    registry.upsert_station(station);

    registry.update_dls(id, "Now Playing: Test Song".to_string(), now());

    let meta = registry.get_metadata(id).unwrap();
    assert_eq!(meta.dls.unwrap().text, "Now Playing: Test Song");
}

#[test]
fn known_broadcast_is_refreshed_not_duplicated() {
    let mut registry = StationRegistry::new();
    let first = make_station("triple j", 0x1001);
    let first_id = first.id;
    registry.upsert_station(first);

    let mut again = make_station("renamed", 0x1001);
    again.signal_strength_bits = 0.3f32.to_bits();
    again.is_active = false;
    again.last_seen = Timestamp { secs: 42, nanos: 7 };
    let again_id = again.id;
    registry.upsert_station(again);

    assert_eq!(registry.station_count(), 1);
    assert!(registry.get_station(again_id).is_none());
    let kept = registry.get_station(first_id).unwrap();
    assert_eq!(kept.name, "triple j");
    assert_eq!(kept.signal_strength_bits, 0.3f32.to_bits());
    assert!(!kept.is_active);
    assert_eq!(kept.last_seen, Timestamp { secs: 42, nanos: 7 });
}

#[test]
fn same_service_on_another_frequency_is_another_station() {
    let mut registry = StationRegistry::new();
    registry.upsert_station(make_station("ABC Classic", 0x2001));
    let mut other = make_station("ABC Classic", 0x2001);
    other.frequency = 206_352_000;
    registry.upsert_station(other);
    assert_eq!(registry.station_count(), 2);
    let found = registry.find_by_service_id(0x2001).unwrap();
    assert_eq!(found.service_id, 0x2001);
    assert!(registry.find_by_service_id(0x9999).is_none());
}

#[test]
fn reporting_twice_is_reporting_once() {
    let mut registry = StationRegistry::new();
    let station = make_station("Nova", 0x3001);
    let id = station.id;
    registry.upsert_station(station.clone());
    registry.upsert_station(station);
    assert_eq!(registry.station_count(), 1);
    assert_eq!(registry.get_station(id).unwrap().name, "Nova");
}

#[test]
fn same_id_new_broadcast_replaces_the_station() {
    let mut registry = StationRegistry::new();
    let station = make_station("Old", 0x4001);
    let id = station.id;
    registry.upsert_station(station);
    let mut moved = make_station("New", 0x4002);
    moved.id = id;
    registry.upsert_station(moved);
    assert_eq!(registry.station_count(), 1);
    assert_eq!(registry.get_station(id).unwrap().name, "New");
}

#[test]
fn sorting_is_by_bytes_and_keeps_everything() {
    let mut registry = StationRegistry::new();
    registry.upsert_station(make_station("b", 1));
    registry.upsert_station(make_station("B", 2));
    registry.upsert_station(make_station("a", 3));
    registry.upsert_station(make_station("ab", 4));
    let names: Vec<String> = registry.get_all_stations().into_iter().map(|s| s.name).collect();
    assert_eq!(names, vec!["B", "a", "ab", "b"]);
}

#[test]
fn dls_for_unknown_station_creates_fresh_metadata() {
    let mut registry = StationRegistry::new();
    let at = Timestamp { secs: 1_700_000_000, nanos: 5 };
    registry.update_dls(77, "Hello".to_string(), at);
    let meta = registry.get_metadata(77).unwrap();
    assert_eq!(meta.station_id, 77);
    assert_eq!(meta.signal_quality_bits, 0);
    assert_eq!(meta.bit_error_rate_bits, 0);
    assert_eq!(meta.audio_level_db_bits, SILENT_AUDIO_LEVEL_DB_BITS);
    assert_eq!(f32::from_bits(SILENT_AUDIO_LEVEL_DB_BITS), -60.0);
    let dls = meta.dls.unwrap();
    assert_eq!(dls.text, "Hello");
    assert_eq!(dls.charset, 0);
    assert_eq!(dls.updated_at, at);
    assert!(meta.sls.is_none());
}

#[test]
fn dls_keeps_other_metadata() {
    let mut registry = StationRegistry::new();
    let md = StationMetadata {
        station_id: 5,
        dls: None,
        sls: None,
        signal_quality_bits: 0.9f32.to_bits(),
        bit_error_rate_bits: 0.001f32.to_bits(),
        audio_level_db_bits: (-12.0f32).to_bits(),
    };
    registry.update_metadata(5, md);
    registry.update_dls(5, "Song".to_string(), Timestamp { secs: 1, nanos: 0 });
    let meta = registry.get_metadata(5).unwrap();
    assert_eq!(meta.signal_quality_bits, 0.9f32.to_bits());
    assert_eq!(meta.audio_level_db_bits, (-12.0f32).to_bits());
    assert_eq!(meta.dls.unwrap().text, "Song");
    assert!(registry.get_metadata(6).is_none());
}

#[test]
fn prune_keeps_only_stations_seen_after_cutoff() {
    let mut registry = StationRegistry::new();
    let mut old = make_station("Old", 1);
    old.last_seen = Timestamp { secs: 100, nanos: 0 };
    let mut edge = make_station("Edge", 2);
    edge.last_seen = Timestamp { secs: 200, nanos: 0 };
    let mut fresh = make_station("Fresh", 3);
    fresh.last_seen = Timestamp { secs: 200, nanos: 1 };
    registry.upsert_station(old);
    registry.upsert_station(edge);
    registry.upsert_station(fresh);
    registry.update_dls(1, "x".to_string(), Timestamp { secs: 0, nanos: 0 });
    registry.prune_stale(Timestamp { secs: 200, nanos: 0 });
    let names: Vec<String> = registry.get_all_stations().into_iter().map(|s| s.name).collect();
    assert_eq!(names, vec!["Fresh"]);
    assert!(registry.get_metadata(1).is_some());
}

#[test]
fn clear_empties_everything() {
    let mut registry = StationRegistry::new();
    let station = make_station("X", 1);
    let id = station.id;
    registry.upsert_station(station);
    registry.update_dls(id, "t".to_string(), now());
    registry.clear();
    assert_eq!(registry.station_count(), 0);
    assert!(registry.get_metadata(id).is_none());
    assert!(registry.get_all_stations().is_empty());
}
