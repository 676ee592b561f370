use wifi_gui::device::wifi::sec_types::{ConnectionSettings, SettingValue, WifiSecurity};

fn get_val<'a>(settings: &'a ConnectionSettings, section: &str, key: &str) -> &'a SettingValue {
    settings
        .get(section, key)
        .unwrap_or_else(|| panic!("Missing {}.{}", section, key))
}

fn text(value: &SettingValue) -> Option<String> {
    match value {
        SettingValue::Text(s) => Some(s.clone()),
        SettingValue::Bytes(_) => None,
    }
}

fn bytes(value: &SettingValue) -> Option<Vec<u8>> {
    match value {
        SettingValue::Bytes(b) => Some(b.clone()),
        SettingValue::Text(_) => None,
    }
}

#[test]
fn test_stable_uuid_generation() {
    let ssid = b"TestNetwork";
    let settings1 = WifiSecurity::Wpa2.build_connection_settings(ssid, Some("pass"));
    let settings2 = WifiSecurity::Wpa2.build_connection_settings(ssid, Some("pass"));

    let uuid1: String = text(get_val(&settings1, "connection", "uuid")).unwrap();
    let uuid2: String = text(get_val(&settings2, "connection", "uuid")).unwrap();

    // Same SSID must always produce the same UUID
    assert_eq!(
        uuid1, uuid2,
        "UUIDs should be deterministic for the same SSID"
    );
}

#[test]
fn test_opens_security_omits_security_section() {
    let ssid = b"TestOpenNetwork";
    let settings = WifiSecurity::Open.build_connection_settings(ssid, None);

    assert!(settings.contains_key("connection"));
    assert!(settings.contains_key("802-11-wireless"));
    assert!(!settings.contains_key("802-11-wireless-security"));
}

#[test]
fn test_wpa2_correct_nested_structure() {
    let ssid = b"TestNetwork";
    let settings = WifiSecurity::Wpa2.build_connection_settings(ssid, Some("password"));

    let conn_type: String =
        text(get_val(&settings, "connection", "type")).expect("Should be string value");
    assert_eq!(conn_type, "802-11-wireless");

    let ssid_val: Vec<u8> =
        bytes(get_val(&settings, "802-11-wireless", "ssid")).expect("Should be a Vec<u8>");
    assert_eq!(ssid_val, ssid.to_vec());

    let mgmt: String =
        text(get_val(&settings, "802-11-wireless-security", "key-mgmt")).expect("Should be a String");
    let psk: String =
        text(get_val(&settings, "802-11-wireless-security", "psk")).expect("Should be a String");

    assert_eq!(mgmt, "wpa-psk");
    assert_eq!(psk, "password");
}

#[test]
fn test_enterprise_uses_correct_keys() {
    let ssid = b"TestNetwork";
    let settings = WifiSecurity::Enterprise.build_connection_settings(ssid, Some("password"));

    let mgmt: String = text(get_val(&settings, "802-11-wireless-security", "key-mgmt"))
        .expect("Should be able to do as String");
    let pwd: String = text(get_val(&settings, "802-11-wireless-security", "password"))
        .expect("Should be able to do as String");

    assert_eq!(mgmt, "wpa-eap");
    assert_eq!(pwd, "password");
}

#[test]
fn uuid_is_the_v5_oid_uuid_of_the_ssid() {
    let settings = WifiSecurity::Open.build_connection_settings(b"rust-lang.org", None);
    let uuid = text(get_val(&settings, "connection", "uuid")).unwrap();
    assert_eq!(uuid.len(), 36);
    let other = WifiSecurity::Open.build_connection_settings(b"other", None);
    let uuid_other = text(get_val(&other, "connection", "uuid")).unwrap();
    assert_ne!(uuid, uuid_other);
    assert_ne!(uuid, "rust-lang.org");
}

#[test]
fn id_is_the_ssid_read_as_text() {
    let settings = WifiSecurity::Wep.build_connection_settings(b"Cafe", Some("k"));
    assert_eq!(text(get_val(&settings, "connection", "id")).unwrap(), "Cafe");
    assert_eq!(text(get_val(&settings, "802-11-wireless-security", "key-mgmt")).unwrap(), "none");
    assert_eq!(text(get_val(&settings, "802-11-wireless-security", "wep-key0")).unwrap(), "k");
    let lossy = WifiSecurity::Open.build_connection_settings(&[0x41, 0xff, 0x42], None);
    assert_eq!(text(get_val(&lossy, "connection", "id")).unwrap(), "A\u{fffd}B");
}

#[test]
fn secured_network_without_password_has_only_key_management() {
    let settings = WifiSecurity::Wpa.build_connection_settings(b"Net", None);
    assert!(settings.contains_key("802-11-wireless-security"));
    assert!(settings.get("802-11-wireless-security", "psk").is_none());
    assert_eq!(
        text(get_val(&settings, "802-11-wireless-security", "key-mgmt")).unwrap(),
        "wpa-psk"
    );
    let unknown = WifiSecurity::Unknown.build_connection_settings(b"Net", Some("pw"));
    assert!(!unknown.contains_key("802-11-wireless-security"));
    assert!(unknown.get("connection", "missing").is_none());
    assert!(unknown.get("missing", "type").is_none());
}

#[test]
fn nm_params_per_security() {
    assert_eq!(WifiSecurity::Wpa.nm_params(), ("wpa-psk", "psk"));
    assert_eq!(WifiSecurity::Wpa2.nm_params(), ("wpa-psk", "psk"));
    assert_eq!(WifiSecurity::Wep.nm_params(), ("none", "wep-key0"));
    assert_eq!(WifiSecurity::Enterprise.nm_params(), ("wpa-eap", "password"));
    assert_eq!(WifiSecurity::Open.nm_params(), ("none", ""));
    assert_eq!(WifiSecurity::Unknown.nm_params(), ("none", ""));
}

#[test]
fn uuid_matches_the_v5_oid_uuid() {
    let settings = WifiSecurity::Wpa2.build_connection_settings(b"TestNetwork", Some("pass"));
    assert_eq!(
        text(get_val(&settings, "connection", "uuid")).unwrap(),
        "9701fc5c-f884-50c1-8c11-bf1700fce2f6"
    );
    let open = WifiSecurity::Open.build_connection_settings(b"TestNetwork", None);
    assert_eq!(
        text(get_val(&open, "connection", "uuid")).unwrap(),
        "9701fc5c-f884-50c1-8c11-bf1700fce2f6"
    );
}

#[test]
fn settings_from_given_parts() {
    let settings = WifiSecurity::Wep.settings_from_parts(
        b"Net",
        Some("key"),
        "my id".to_string(),
        "my uuid".to_string(),
    );
    assert_eq!(settings.sections.len(), 3);
    assert_eq!(settings.sections[0].name, "connection");
    assert_eq!(settings.sections[1].name, "802-11-wireless");
    assert_eq!(settings.sections[2].name, "802-11-wireless-security");
    assert_eq!(text(get_val(&settings, "connection", "type")).unwrap(), "802-11-wireless");
    assert_eq!(text(get_val(&settings, "connection", "id")).unwrap(), "my id");
    assert_eq!(text(get_val(&settings, "connection", "uuid")).unwrap(), "my uuid");
    assert_eq!(bytes(get_val(&settings, "802-11-wireless", "ssid")).unwrap(), b"Net".to_vec());
    assert_eq!(text(get_val(&settings, "802-11-wireless-security", "key-mgmt")).unwrap(), "none");
    assert_eq!(text(get_val(&settings, "802-11-wireless-security", "wep-key0")).unwrap(), "key");
    let open = WifiSecurity::Open.settings_from_parts(b"Net", Some("key"), "i".into(), "u".into());
    assert_eq!(open.sections.len(), 2);
}
