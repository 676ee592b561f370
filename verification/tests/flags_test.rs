use wifi_gui::device::types::DeviceType;
use wifi_gui::device::wifi::access_point::{ap_flags_from_raw, security_from_flags, ssid_from_raw};
use wifi_gui::device::wifi::sec_types::{
    NM80211ApFlags, NM80211ApSecFlags, WifiSecurity, AP_FLAG_PRIVACY, SEC_GROUP_WEP104,
    SEC_KEY_MGMT_802_1X, SEC_KEY_MGMT_PSK, SEC_PAIR_CCMP, SEC_PAIR_TKIP, SEC_PAIR_WEP40,
};

#[test]
fn device_type_codes() {
    assert_eq!(DeviceType::from(0), DeviceType::Unknown);
    assert_eq!(DeviceType::from(1), DeviceType::Ethernet);
    assert_eq!(DeviceType::from(2), DeviceType::Wifi);
    assert_eq!(DeviceType::from(5), DeviceType::Bluetooth);
    assert_eq!(DeviceType::from(13), DeviceType::Bridge);
    assert_eq!(DeviceType::from(15), DeviceType::Team);
    assert_eq!(DeviceType::from(20), DeviceType::VETH);
    assert_eq!(DeviceType::from(3), DeviceType::Other(3));
    assert_eq!(DeviceType::from(14), DeviceType::Other(14));
    assert_eq!(DeviceType::from(21), DeviceType::Other(21));
    assert_eq!(DeviceType::from(u32::MAX), DeviceType::Other(u32::MAX));
}

#[test]
fn security_from_security_flags() {
    let sec = |bits: u32| WifiSecurity::from(NM80211ApSecFlags::from_bits_truncate(bits));
    assert_eq!(sec(0), WifiSecurity::Open);
    assert_eq!(sec(SEC_PAIR_WEP40), WifiSecurity::Wep);
    assert_eq!(sec(SEC_GROUP_WEP104 | SEC_KEY_MGMT_PSK), WifiSecurity::Wep);
    assert_eq!(sec(SEC_KEY_MGMT_802_1X | SEC_PAIR_CCMP), WifiSecurity::Enterprise);
    assert_eq!(sec(SEC_KEY_MGMT_PSK | SEC_PAIR_CCMP), WifiSecurity::Wpa2);
    assert_eq!(sec(SEC_KEY_MGMT_PSK | SEC_PAIR_TKIP), WifiSecurity::Wpa);
    assert_eq!(sec(SEC_PAIR_TKIP), WifiSecurity::Unknown);
    // unknown bits are dropped before reading
    assert_eq!(sec(0x1000), WifiSecurity::Open);
}

#[test]
fn flag_sets_keep_known_bits_only() {
    assert_eq!(NM80211ApSecFlags::from_bits_truncate(0xffff_ffff).bits(), 0x3ff);
    assert!(NM80211ApSecFlags::from_bits_truncate(0x400).is_empty());
    let a = NM80211ApSecFlags::from_bits_truncate(0x108);
    assert!(a.contains(&NM80211ApSecFlags::from_bits_truncate(0x8)));
    assert!(!a.contains(&NM80211ApSecFlags::from_bits_truncate(0x9)));
    assert!(a.intersects(&NM80211ApSecFlags::from_bits_truncate(0x9)));
    assert!(!a.intersects(&NM80211ApSecFlags::from_bits_truncate(0x1)));
    assert_eq!(NM80211ApFlags::from_bits_truncate(0xff).bits(), AP_FLAG_PRIVACY);
    assert_eq!(ap_flags_from_raw(2).bits(), 0);
    assert!(ap_flags_from_raw(3).contains(&NM80211ApFlags::from_bits_truncate(AP_FLAG_PRIVACY)));
}

#[test]
fn access_point_readings() {
    assert_eq!(security_from_flags(SEC_KEY_MGMT_PSK, SEC_PAIR_CCMP), WifiSecurity::Wpa2);
    assert_eq!(security_from_flags(SEC_KEY_MGMT_PSK, 0), WifiSecurity::Wpa);
    assert_eq!(security_from_flags(0, 0), WifiSecurity::Open);
    assert_eq!(ssid_from_raw(b"Home"), "Home");
    assert_eq!(ssid_from_raw(&[0x48, 0xc3, 0x28]), "H\u{fffd}(");
}
