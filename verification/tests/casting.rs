use dab_radio::casting::airplay::{airplay_device_name, AirPlayManager, CastError};
use dab_radio::casting::chromecast::ChromecastManager;

#[test]
fn airplay_names_come_after_the_mac() {
    assert_eq!(airplay_device_name("AABBCCDDEEFF@Living Room._raop._tcp.local."), "Living Room");
    assert_eq!(airplay_device_name("Kitchen._raop._tcp.local."), "Kitchen");
    assert_eq!(airplay_device_name("a@b@c.d"), "b");
    assert_eq!(airplay_device_name(""), "");
}

#[test]
fn airplay_discovery_replaces_same_device() {
    let mut m = AirPlayManager::new();
    let info = m.record_discovered("MAC@Den._raop._tcp.local.", "10.0.0.2".to_string(), 7000);
    assert_eq!(info.name, "Den");
    assert_eq!(info.device_type, "airplay");
    assert!(!info.is_connected);
    m.record_discovered("MAC@Den._raop._tcp.local.", "10.0.0.3".to_string(), 7001);
    m.record_discovered("MAC2@Hall._raop._tcp.local.", "10.0.0.4".to_string(), 7000);
    let devices = m.get_devices();
    assert_eq!(devices.len(), 2);
    assert_eq!(devices[0].id, "MAC@Den._raop._tcp.local.");
    assert_eq!(devices[1].name, "Hall");
}

#[test]
fn airplay_streaming_needs_a_known_device() {
    let mut m = AirPlayManager::new();
    match m.stream_to_device("nope") {
        Err(CastError::DeviceNotFound(id)) => assert_eq!(id, "nope"),
        Ok(()) => panic!("unknown device accepted"),
    }
    assert!(!m.is_streaming());
    m.record_discovered("MAC@Den._raop._tcp.local.", "10.0.0.2".to_string(), 7000);
    assert!(m.stream_to_device("MAC@Den._raop._tcp.local.").is_ok());
    assert!(m.is_streaming());
    assert!(m.stop_streaming().is_ok());
    assert!(!m.is_streaming());
}

#[test]
fn chromecast_uses_friendly_name_when_given() {
    let mut m = ChromecastManager::new();
    let named = m.record_discovered(
        "Chromecast-1234._googlecast._tcp.local.",
        Some("Lounge TV".to_string()),
        "10.0.0.9".to_string(),
        8009,
        None,
    );
    assert_eq!(named.name, "Lounge TV");
    assert_eq!(named.device_type, "chromecast");
    let unnamed = m.record_discovered("Other._googlecast._tcp.local.", None, "10.0.0.8".to_string(), 8009, Some("Nest".to_string()));
    assert_eq!(unnamed.name, "Other._googlecast._tcp.local.");
    assert_eq!(m.get_devices().len(), 2);
}

#[test]
fn chromecast_casting_needs_a_known_device() {
    let mut m = ChromecastManager::new();
    assert!(matches!(m.cast_to_device("x", "http://h/stream"), Err(CastError::DeviceNotFound(_))));
    assert!(!m.is_casting());
    m.record_discovered("x", None, "10.0.0.1".to_string(), 8009, None);
    assert!(m.cast_to_device("x", "http://h/stream").is_ok());
    assert!(m.is_casting());
    assert!(m.stop_casting().is_ok());
    assert!(!m.is_casting());
}
