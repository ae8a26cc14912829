use dab_radio::api::rest::{scan_passes, MAX_SCAN_PASSES};
use dab_radio::api::websocket::{ws_action, WsAction};
use dab_radio::text::lines;

#[test]
fn scan_passes_are_capped() {
    assert_eq!(scan_passes(3, None), 3);
    assert_eq!(scan_passes(3, Some(5)), 5);
    assert_eq!(scan_passes(3, Some(50)), MAX_SCAN_PASSES);
    assert_eq!(scan_passes(3, Some(0)), 0);
}

#[test]
fn ws_actions_are_classified() {
    assert_eq!(ws_action(Some("get_stations")), WsAction::GetStations);
    assert_eq!(ws_action(Some("get_status")), WsAction::GetStatus);
    assert_eq!(ws_action(Some("get_metadata")), WsAction::GetMetadata);
    assert_eq!(ws_action(Some("dance")), WsAction::Unknown("dance".to_string()));
    assert_eq!(ws_action(None), WsAction::NoAction);
}

#[test]
fn lines_split_like_std() {
    for s in ["", "a", "a\n", "a\r\nb", "a\n\nb\r", "\n", "x\r\n\r\n", "é\nü"] {
        let expected: Vec<String> = s.lines().map(|l| l.to_string()).collect();
        assert_eq!(lines(s), expected, "input {:?}", s);
    }
}

use dab_radio::api::rest::{metadata_request, station_request, MetadataLookup, StationLookup};
use dab_radio::api::websocket::{ws_request, WsRequest};
use dab_radio::dsp::sdr_interface::Timestamp;
use dab_radio::services::station_registry::{Station, StationRegistry};

const ID_TEXT: &str = "67e55044-10b1-426f-9247-bb680e5fe0c8";
const ID: u128 = 0x67e55044_10b1_426f_9247_bb680e5fe0c8;

fn registry_with_station() -> StationRegistry {
    let mut reg = StationRegistry::new();
    reg.upsert_station(Station {
        id: ID,
        name: "triple j".to_string(),
        ensemble_name: "Sydney".to_string(),
        ensemble_id: 1,
        service_id: 0x1001,
        frequency: 202_928_000,
        block_name: "9A".to_string(),
        signal_strength_bits: 0,
        program_type: "PopMusic".to_string(),
        is_active: true,
        bitrate: 64,
        codec: "HE-AAC v2".to_string(),
        last_seen: Timestamp { secs: 0, nanos: 0 },
    });
    reg
}

#[test]
fn ws_requests_are_read_from_json() {
    assert!(matches!(ws_request(r#"{"action":"get_stations"}"#), WsRequest::Stations));
    assert!(matches!(ws_request(r#"{"action":"get_status"}"#), WsRequest::Status));
    assert!(matches!(
        ws_request(&format!(r#"{{"action":"get_metadata","station_id":"{}"}}"#, ID_TEXT)),
        WsRequest::Metadata(ID)
    ));
    assert!(matches!(ws_request(r#"{"action":"get_metadata","station_id":"nope"}"#), WsRequest::MetadataWithoutId));
    assert!(matches!(ws_request(r#"{"action":"get_metadata"}"#), WsRequest::MetadataWithoutId));
    assert!(matches!(ws_request(r#"{"action":"dance"}"#), WsRequest::Unknown(a) if a == "dance"));
    assert!(matches!(ws_request(r#"{"action":7}"#), WsRequest::NoAction));
    assert!(matches!(ws_request(r#"{"other":"x"}"#), WsRequest::NoAction));
    assert!(matches!(ws_request("not json"), WsRequest::NotJson));
}

#[test]
fn station_paths_are_checked() {
    let mut reg = registry_with_station();
    assert!(matches!(station_request("xyz", &reg), StationLookup::BadRequest));
    assert!(matches!(station_request("00000000-0000-0000-0000-000000000001", &reg), StationLookup::NotFound));
    match station_request(ID_TEXT, &reg) {
        StationLookup::Found(st) => assert_eq!(st.name, "triple j"),
        _ => panic!("station not found"),
    }
    assert!(matches!(metadata_request("xyz", &reg), MetadataLookup::BadRequest));
    assert!(matches!(metadata_request(ID_TEXT, &reg), MetadataLookup::Missing(ID)));
    reg.update_dls(ID, "Song".to_string(), Timestamp { secs: 1, nanos: 0 });
    match metadata_request(ID_TEXT, &reg) {
        MetadataLookup::Found(md) => assert_eq!(md.dls.unwrap().text, "Song"),
        _ => panic!("metadata not found"),
    }
}
