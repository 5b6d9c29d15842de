use ridgeback::casting::{
    add_discovered, classify_device, device_from_response, parse_ssdp_field, CastDevice,
    CastDeviceType, CastManager, CastState, DesktopPlatform,
};

const CHROMECAST: &str = "HTTP/1.1 200 OK\r\nCACHE-CONTROL: max-age=1800\r\nSERVER: Linux/3.8.13, UPnP/1.0, Portable SDK\r\nfriendly-name : Living Room \r\nST: urn:dial-multiscreen-org:service:dial:1\r\nUSN: uuid:eureka-1234\r\n\r\n";

#[test]
fn ssdp_fields_are_found_in_any_case() {
    assert_eq!(parse_ssdp_field(CHROMECAST, "FRIENDLY-NAME"), Some("Living Room".to_string()));
    assert_eq!(parse_ssdp_field(CHROMECAST, "server"), Some("Linux/3.8.13, UPnP/1.0, Portable SDK".to_string()));
    // Only the first colon splits the line.
    assert_eq!(parse_ssdp_field(CHROMECAST, "ST"), Some("urn:dial-multiscreen-org:service:dial:1".to_string()));
    assert_eq!(parse_ssdp_field(CHROMECAST, "LOCATION"), None);
    assert_eq!(parse_ssdp_field("no colon here\nX:1", "no colon here"), None);
    assert_eq!(parse_ssdp_field("A: 1\na: 2", "A"), Some("1".to_string()));
    assert_eq!(parse_ssdp_field("", "A"), None);
}

#[test]
fn devices_are_classified() {
    assert_eq!(classify_device(CHROMECAST), CastDeviceType::Chromecast);
    assert_eq!(classify_device("SERVER: Google Home mini"), CastDeviceType::GoogleHome);
    assert_eq!(classify_device("SERVER: Samsung"), CastDeviceType::SmartTv);
    assert_eq!(classify_device("friendly-name: Bedroom TV"), CastDeviceType::SmartTv);
    assert_eq!(classify_device("SERVER: something"), CastDeviceType::Unknown);
    assert_eq!(classify_device(""), CastDeviceType::Unknown);
}

#[test]
fn device_names_fall_back() {
    let d = device_from_response(CHROMECAST, "192.168.1.20", 1900);
    assert_eq!(d.name, "Living Room");
    assert_eq!(d.ip, "192.168.1.20");
    assert_eq!(d.port, 1900);
    let s = device_from_response("SERVER: box\r\n", "10.0.0.2", 80);
    assert_eq!(s.name, "box");
    let n = device_from_response("HTTP/1.1 200 OK\r\n", "10.0.0.3", 80);
    assert_eq!(n.name, "Cast Device (10.0.0.3)");
}

#[test]
fn discovered_devices_are_unique_by_address() {
    let mut ds: Vec<CastDevice> = Vec::new();
    assert!(add_discovered(&mut ds, CHROMECAST, "192.168.1.20", 1900));
    assert!(!add_discovered(&mut ds, "SERVER: other", "192.168.1.20", 1901));
    assert!(add_discovered(&mut ds, "SERVER: other", "192.168.1.21", 1901));
    assert_eq!(ds.len(), 2);
    assert_eq!(ds[1].name, "other");
}

#[test]
fn discovery_states() {
    let mut m = CastManager::new();
    assert_eq!(*m.state(), CastState::Idle);
    assert!(CastManager::is_supported());
    m.start_discovery();
    assert_eq!(*m.state(), CastState::Discovering);
    let found = vec![device_from_response(CHROMECAST, "1.2.3.4", 1)];
    m.finish_discovery(Ok(found));
    assert_eq!(*m.state(), CastState::Idle);
    assert_eq!(m.devices().len(), 1);
    m.start_discovery();
    assert_eq!(m.devices().len(), 0);
    m.finish_discovery(Err("timeout".to_string()));
    assert_eq!(*m.state(), CastState::Error("timeout".to_string()));
    m.stop();
    assert_eq!(*m.state(), CastState::Idle);
}

#[test]
fn native_share_hints_per_platform() {
    assert!(CastManager::native_share_hint(DesktopPlatform::Windows).starts_with("Press Win+K"));
    assert!(CastManager::native_share_hint(DesktopPlatform::Windows).ends_with("\"Connect\" app."));
    assert!(CastManager::native_share_hint(DesktopPlatform::MacOs).contains("macOS Screen Sharing app"));
    assert!(CastManager::native_share_hint(DesktopPlatform::Linux).contains("OBS Studio"));
    assert!(CastManager::native_share_hint(DesktopPlatform::Other).starts_with("Use your operating system's"));
}
