use wifi_gui::backend::network_manager::first_wifi_device;
use wifi_gui::device::types::DeviceType;
use wifi_gui::backend::error::NMError;
use wifi_gui::backend::network_manager::{require_devices, strength_update};
use wifi_gui::device::wifi::ranking::select_best_networks;
use wifi_gui::device::wifi::access_point::{band_label, AccessPointUpdate, NetworkDisplayInfo};
use wifi_gui::device::wifi::sec_types::WifiSecurity;
use wifi_gui::tui::models::{self, SignalColor};
use wifi_gui::wifi::error::WifiError;
use wifi_gui::wifi::nm::first_device;

fn net(ssid: &str, strength: u8, path: &str) -> NetworkDisplayInfo {
    NetworkDisplayInfo {
        ssid: ssid.into(),
        strength,
        band: "2.4GHz",
        security: WifiSecurity::Open,
        path: path.into(),
    }
}

#[test]
fn test_no_device_error_logic() {
    let devices: Vec<String> = vec![];

    let result = require_devices(devices);

    assert!(matches!(result, Err(NMError::NoDeviceFound)));
}

#[test]
fn devices_are_passed_through() {
    let result = require_devices(vec!["/dev/1".to_string()]);
    assert_eq!(result.unwrap(), vec!["/dev/1".to_string()]);
    assert!(matches!(first_device::<String>(vec![]), Err(WifiError::NoDeviceFound)));
    assert_eq!(first_device(vec!["a", "b"]).unwrap(), "a");
    assert_eq!(WifiError::NoDeviceFound.message(), "No device found!");
}

#[test]
fn scan_keeps_strongest_per_ssid_sorted() {
    let infos = vec![
        net("A", 40, "/1"),
        net("B", 60, "/2"),
        net("A", 70, "/3"),
        net("C", 60, "/4"),
        net("B", 60, "/5"),
        net("D", 5, "/6"),
    ];
    let r = select_best_networks(infos);
    let paths: Vec<&str> = r.iter().map(|n| n.path.as_str()).collect();
    assert_eq!(paths, vec!["/3", "/2", "/4", "/6"]);
    assert!(select_best_networks(vec![]).is_empty());
}

#[test]
fn strength_signal() {
    let changed = vec![("Ssid".to_string(), None), ("Strength".to_string(), Some(42u8))];
    match strength_update("/ap/1".into(), &changed) {
        Some(AccessPointUpdate::PropertyChanged { path, strength }) => {
            assert_eq!(path, "/ap/1");
            assert_eq!(strength, 42);
        }
        _ => panic!("expected a strength change"),
    }
    let not_a_byte = vec![("Strength".to_string(), None)];
    assert!(strength_update("/ap/1".into(), &not_a_byte).is_none());
    assert!(strength_update("/ap/1".into(), &vec![]).is_none());
}

#[test]
fn display_info_from_readings() {
    let info = NetworkDisplayInfo::from_readings(None, None, None, None, "/ap".into());
    assert_eq!(info.ssid, "<hidden>");
    assert_eq!(info.strength, 0);
    assert_eq!(info.band, "2.4GHz");
    assert_eq!(info.security, WifiSecurity::Unknown);
    let info = NetworkDisplayInfo::from_readings(
        Some("Home".into()),
        Some(77),
        Some(5180),
        Some(WifiSecurity::Wpa2),
        "/ap/2".into(),
    );
    assert_eq!(info.ssid, "Home");
    assert_eq!(info.strength, 77);
    assert_eq!(info.band, "5GHz");
    assert_eq!(info.security, WifiSecurity::Wpa2);
    assert_eq!(info.path, "/ap/2");
    assert_eq!(band_label(4000), "2.4GHz");
    assert_eq!(band_label(4001), "5GHz");
}

#[test]
fn signal_icons_and_colors() {
    let m = |strength: u8, frequency: u32| models::NetworkDisplayInfo {
        ssid: "S".into(),
        strength,
        frequency,
        is_secure: false,
        path: "/p".into(),
    };
    assert_eq!(m(0, 0).signal_icon(), "  ");
    assert_eq!(m(20, 0).signal_icon(), "  ");
    assert_eq!(m(21, 0).signal_icon(), "▂ ");
    assert_eq!(m(41, 0).signal_icon(), "▂▄");
    assert_eq!(m(80, 0).signal_icon(), "▂▄▆");
    assert_eq!(m(81, 0).signal_icon(), "▂▄▆█");
    assert_eq!(m(30, 0).signal_color(), SignalColor::Red);
    assert_eq!(m(31, 0).signal_color(), SignalColor::Yellow);
    assert_eq!(m(70, 0).signal_color(), SignalColor::Yellow);
    assert_eq!(m(71, 0).signal_color(), SignalColor::Green);
    assert_eq!(m(0, 2412).band(), "2.4GHz");
    assert_eq!(m(0, 5180).band(), "5GHz");
}

#[test]
fn connects_through_the_first_wifi_device() {
    let devices = vec![
        ("/d/1", DeviceType::Ethernet),
        ("/d/2", DeviceType::Wifi),
        ("/d/3", DeviceType::Wifi),
    ];
    assert_eq!(first_wifi_device(devices).unwrap(), "/d/2");
    let none = vec![("/d/1", DeviceType::Ethernet), ("/d/4", DeviceType::Other(2000))];
    assert!(matches!(first_wifi_device(none), Err(NMError::NoDeviceFound)));
    assert!(matches!(first_wifi_device::<&str>(vec![]), Err(NMError::NoDeviceFound)));
}

#[test]
fn signal_bars_never_drop_as_strength_grows() {
    let bars = |s: &str| s.chars().filter(|c| *c != ' ').count();
    let mut last = 0;
    for strength in 0..=255u8 {
        let n = bars(models::signal_icon_for(strength));
        assert!(n >= last);
        assert_eq!(n == 0, strength <= 20);
        assert_eq!(n == 4, strength > 80);
        last = n;
    }
}
