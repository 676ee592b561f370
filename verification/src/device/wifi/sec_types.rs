use vstd::prelude::*;
use vstd::slice::slice_to_vec;
use vstd::string::*;

verus! {

/// The empty set of `NM80211ApFlags`.
pub const AP_FLAG_NONE: u32 = 0x0000_0000;

/// Bit of `NM80211ApFlags`: the access point requires privacy (encryption).
pub const AP_FLAG_PRIVACY: u32 = 0x0000_0001;

/// Every bit that `NM80211ApFlags` knows.
pub const AP_FLAGS_ALL: u32 = 0x0000_0001;

/// Bits of `NM80211ApSecFlags`, as NetworkManager defines them.
pub const SEC_NONE: u32 = 0x0000_0000;
pub const SEC_PAIR_WEP40: u32 = 0x0000_0001;
pub const SEC_PAIR_WEP104: u32 = 0x0000_0002;
pub const SEC_PAIR_TKIP: u32 = 0x0000_0004;
pub const SEC_PAIR_CCMP: u32 = 0x0000_0008;
pub const SEC_GROUP_WEP40: u32 = 0x0000_0010;
pub const SEC_GROUP_WEP104: u32 = 0x0000_0020;
pub const SEC_GROUP_TKIP: u32 = 0x0000_0040;
pub const SEC_GROUP_CCMP: u32 = 0x0000_0080;
pub const SEC_KEY_MGMT_PSK: u32 = 0x0000_0100;
pub const SEC_KEY_MGMT_802_1X: u32 = 0x0000_0200;

/// Every bit that `NM80211ApSecFlags` knows.
pub const SEC_FLAGS_ALL: u32 = 0x0000_03ff;

/// The bits that mark a WEP cipher, pairwise or group.
pub const SEC_WEP_MASK: u32 = 0x0000_0033;

/// Access point flags for Wi-Fi: a set of the known bits of a raw value.
#[derive(Debug, Clone, Copy)]
pub struct NM80211ApFlags {
    bits: u32,
}

impl View for NM80211ApFlags {
    type V = u32;

    closed spec fn view(&self) -> u32 {
        self.bits
    }
}

impl NM80211ApFlags {
    #[verifier::type_invariant]
    closed spec fn known_bits_only(self) -> bool {
        self.bits & !AP_FLAGS_ALL == 0
    }

    /// Keeps the known bits of `raw` and drops the others.
    pub fn from_bits_truncate(raw: u32) -> (r: Self)
        ensures
            r@ == raw & AP_FLAGS_ALL,
    {
        let bits = raw & AP_FLAGS_ALL;
        assert(bits & !AP_FLAGS_ALL == 0) by (bit_vector)
            requires
                bits == raw & 1u32,
                AP_FLAGS_ALL == 1u32,
        ;
        NM80211ApFlags { bits }
    }

    /// The raw bits of the set.
    pub fn bits(&self) -> (r: u32)
        ensures
            r == self@,
    {
        self.bits
    }

    /// Whether every bit of `other` is in the set.
    pub fn contains(&self, other: &Self) -> (r: bool)
        ensures
            r == (self@ & other@ == other@),
    {
        self.bits & other.bits == other.bits
    }
}

/// Flags for security in Wi-Fi access points: a set of the known bits of a raw value.
#[derive(Debug, Clone, Copy)]
pub struct NM80211ApSecFlags {
    bits: u32,
}

impl View for NM80211ApSecFlags {
    type V = u32;

    closed spec fn view(&self) -> u32 {
        self.bits
    }
}

impl NM80211ApSecFlags {
    #[verifier::type_invariant]
    closed spec fn known_bits_only(self) -> bool {
        self.bits & !SEC_FLAGS_ALL == 0
    }

    /// Keeps the known bits of `raw` and drops the others.
    pub fn from_bits_truncate(raw: u32) -> (r: Self)
        ensures
            r@ == raw & SEC_FLAGS_ALL,
    {
        let bits = raw & SEC_FLAGS_ALL;
        assert(bits & !SEC_FLAGS_ALL == 0) by (bit_vector)
            requires
                bits == raw & 0x3ffu32,
                SEC_FLAGS_ALL == 0x3ffu32,
        ;
        NM80211ApSecFlags { bits }
    }

    /// The raw bits of the set.
    pub fn bits(&self) -> (r: u32)
        ensures
            r == self@,
    {
        self.bits
    }

    /// Whether the set is empty.
    pub fn is_empty(&self) -> (r: bool)
        ensures
            r == (self@ == 0),
    {
        self.bits == 0
    }

    /// Whether the set shares a bit with `other`.
    pub fn intersects(&self, other: &Self) -> (r: bool)
        ensures
            r == (self@ & other@ != 0),
    {
        self.bits & other.bits != 0
    }

    /// Whether every bit of `other` is in the set.
    pub fn contains(&self, other: &Self) -> (r: bool)
        ensures
            r == (self@ & other@ == other@),
    {
        self.bits & other.bits == other.bits
    }
}

/// The security of an access point, in the terms the user chooses from.
#[derive(Debug, Clone, Copy, PartialEq, Eq, Structural)]
pub enum WifiSecurity {
    Open,
    Wep,
    Wpa,
    Wpa2,
    Enterprise,
    Unknown,
}

/// How a set of security flags reads: no flag is an open network; a WEP
/// cipher makes it WEP; 802.1X key management makes it enterprise; PSK key
/// management makes it WPA2 with the pairwise CCMP cipher, WPA without it;
/// anything else is unknown.
pub open spec fn security_of_bits(bits: u32) -> WifiSecurity {
    if bits == 0 {
        WifiSecurity::Open
    } else if bits & SEC_WEP_MASK != 0 {
        WifiSecurity::Wep
    } else if bits & SEC_KEY_MGMT_802_1X != 0 {
        WifiSecurity::Enterprise
    } else if bits & SEC_KEY_MGMT_PSK != 0 {
        if bits & SEC_PAIR_CCMP == SEC_PAIR_CCMP {
            WifiSecurity::Wpa2
        } else {
            WifiSecurity::Wpa
        }
    } else {
        WifiSecurity::Unknown
    }
}

/// How security flags read, flag by flag: no flag at all is an open
/// network; any WEP cipher (pairwise or group) makes it WEP; otherwise
/// 802.1X key management makes it enterprise; flags with none of WEP,
/// 802.1X and PSK are unknown.
pub proof fn lemma_security_open_and_wep(bits: u32)
    ensures
        (security_of_bits(bits) == WifiSecurity::Open) <==> bits == 0,
        (security_of_bits(bits) == WifiSecurity::Wep) <==> bits & SEC_WEP_MASK != 0,
        bits & SEC_WEP_MASK == 0 && bits & SEC_KEY_MGMT_802_1X != 0 ==> security_of_bits(bits)
            == WifiSecurity::Enterprise,
        bits != 0 && bits & SEC_WEP_MASK == 0 && bits & SEC_KEY_MGMT_802_1X == 0 && bits
            & SEC_KEY_MGMT_PSK == 0 ==> security_of_bits(bits) == WifiSecurity::Unknown,
{
    assert(bits & 0x200u32 != 0 ==> bits != 0) by (bit_vector);
    assert(bits == 0 ==> bits & 0x33u32 == 0) by (bit_vector);
}

/// A PSK network without WEP or 802.1X is WPA2 exactly when its pairwise
/// cipher includes CCMP, and WPA otherwise; the group ciphers (TKIP, CCMP)
/// play no part: adding or removing them never changes the reading.
pub proof fn lemma_psk_security_reads_pairwise_ccmp(bits: u32)
    requires
        bits & SEC_KEY_MGMT_PSK != 0,
        bits & SEC_WEP_MASK == 0,
        bits & SEC_KEY_MGMT_802_1X == 0,
    ensures
        security_of_bits(bits) == (if bits & SEC_PAIR_CCMP != 0 {
            WifiSecurity::Wpa2
        } else {
            WifiSecurity::Wpa
        }),
        security_of_bits(bits) == security_of_bits(bits | SEC_GROUP_CCMP | SEC_GROUP_TKIP),
        security_of_bits(bits) == security_of_bits(bits & !(SEC_GROUP_CCMP | SEC_GROUP_TKIP)),
{
    let more = bits | SEC_GROUP_CCMP | SEC_GROUP_TKIP;
    let less = bits & !(SEC_GROUP_CCMP | SEC_GROUP_TKIP);
    assert(bits & 0x100u32 != 0 ==> bits != 0) by (bit_vector);
    assert((bits & 8u32 == 8u32) == (bits & 8u32 != 0)) by (bit_vector);
    assert(more == bits | 0x80u32 | 0x40u32 && less == bits & !(0x80u32 | 0x40u32));
    assert(more & 0x33u32 == bits & 0x33u32 && more & 0x100u32 == bits & 0x100u32 && more & 0x200u32
        == bits & 0x200u32 && more & 8u32 == bits & 8u32 && more != 0) by (bit_vector)
        requires
            more == bits | 0x80u32 | 0x40u32,
    ;
    assert(less & 0x33u32 == bits & 0x33u32 && less & 0x100u32 == bits & 0x100u32 && less & 0x200u32
        == bits & 0x200u32 && less & 8u32 == bits & 8u32) by (bit_vector)
        requires
            less == bits & !(0x80u32 | 0x40u32),
    ;
    assert(less & 0x100u32 != 0 ==> less != 0) by (bit_vector);
}

impl From<NM80211ApSecFlags> for WifiSecurity {
    /// Reads a set of security flags as the security it stands for.
    fn from(flags: NM80211ApSecFlags) -> (r: Self) {
        let wep = NM80211ApSecFlags::from_bits_truncate(
            SEC_PAIR_WEP40 | SEC_PAIR_WEP104 | SEC_GROUP_WEP40 | SEC_GROUP_WEP104,
        );
        let enterprise = NM80211ApSecFlags::from_bits_truncate(SEC_KEY_MGMT_802_1X);
        let psk = NM80211ApSecFlags::from_bits_truncate(SEC_KEY_MGMT_PSK);
        let ccmp = NM80211ApSecFlags::from_bits_truncate(SEC_PAIR_CCMP);
        assert((1u32 | 2u32 | 0x10u32 | 0x20u32) & 0x3ffu32 == 0x33u32) by (bit_vector);
        assert(0x200u32 & 0x3ffu32 == 0x200u32) by (bit_vector);
        assert(0x100u32 & 0x3ffu32 == 0x100u32) by (bit_vector);
        assert(8u32 & 0x3ffu32 == 8u32) by (bit_vector);
        if flags.is_empty() {
            WifiSecurity::Open
        } else if flags.intersects(&wep) {
            WifiSecurity::Wep
        } else if flags.intersects(&enterprise) {
            WifiSecurity::Enterprise
        } else if flags.intersects(&psk) {
            if flags.contains(&ccmp) {
                WifiSecurity::Wpa2
            } else {
                WifiSecurity::Wpa
            }
        } else {
            WifiSecurity::Unknown
        }
    }
}

impl vstd::std_specs::convert::FromSpecImpl<NM80211ApSecFlags> for WifiSecurity {
    open spec fn obeys_from_spec() -> bool {
        true
    }

    open spec fn from_spec(v: NM80211ApSecFlags) -> Self {
        security_of_bits(v@)
    }
}


/// The key management NetworkManager expects for each security, and the
/// setting that carries the secret.
pub open spec fn nm_params_view(security: WifiSecurity) -> (Seq<char>, Seq<char>) {
    match security {
        WifiSecurity::Wpa | WifiSecurity::Wpa2 => ("wpa-psk"@, "psk"@),
        WifiSecurity::Wep => ("none"@, "wep-key0"@),
        WifiSecurity::Enterprise => ("wpa-eap"@, "password"@),
        _ => ("none"@, ""@),
    }
}

/// Whether a connection with this security carries a security section.
pub open spec fn has_security_section(security: WifiSecurity) -> bool {
    security != WifiSecurity::Open && security != WifiSecurity::Unknown
}

/// A value of a connection setting.
#[derive(Debug, Clone, PartialEq, Eq)]
pub enum SettingValue {
    Text(String),
    Bytes(Vec<u8>),
}

/// What a setting value holds.
pub enum SettingValueView {
    Text(Seq<char>),
    Bytes(Seq<u8>),
}

impl View for SettingValue {
    type V = SettingValueView;

    open spec fn view(&self) -> SettingValueView {
        match self {
            SettingValue::Text(s) => SettingValueView::Text(s@),
            SettingValue::Bytes(b) => SettingValueView::Bytes(b@),
        }
    }
}

/// One key of a settings section and its value.
#[derive(Debug, Clone)]
pub struct SettingEntry {
    pub key: &'static str,
    pub value: SettingValue,
}

/// A named section of connection settings (`connection`, `802-11-wireless`, ...).
#[derive(Debug, Clone)]
pub struct SettingSection {
    pub name: &'static str,
    pub entries: Vec<SettingEntry>,
}

/// The settings of a new NetworkManager connection, section by section, in
/// the order they were added. Looking up a name or a key finds its first
/// occurrence.
#[derive(Debug, Clone)]
pub struct ConnectionSettings {
    pub sections: Vec<SettingSection>,
}

pub open spec fn entry_view(e: SettingEntry) -> (Seq<char>, SettingValueView) {
    (e.key@, e.value@)
}

pub open spec fn section_view(s: SettingSection) -> (Seq<char>, Seq<(Seq<char>, SettingValueView)>) {
    (s.name@, s.entries@.map_values(|e: SettingEntry| entry_view(e)))
}

impl View for ConnectionSettings {
    type V = Seq<(Seq<char>, Seq<(Seq<char>, SettingValueView)>)>;

    open spec fn view(&self) -> Self::V {
        self.sections@.map_values(|s: SettingSection| section_view(s))
    }
}

/// The index of the first pair in `s` whose name is `name`.
pub open spec fn first_named<T>(s: Seq<(Seq<char>, T)>, name: Seq<char>, i: int) -> bool {
    &&& 0 <= i < s.len()
    &&& s[i].0 == name
    &&& forall|j: int| 0 <= j < i ==> s[j].0 != name
}

/// The value under the first occurrence of `name` in `s`, if any.
pub open spec fn lookup<T>(s: Seq<(Seq<char>, T)>, name: Seq<char>) -> Option<T> {
    if exists|i: int| first_named(s, name, i) {
        Some(s[choose|i: int| first_named(s, name, i)].1)
    } else {
        None
    }
}

/// What `ConnectionSettings::get` finds: the value under `key` in the section `section`.
pub open spec fn settings_lookup(
    settings: Seq<(Seq<char>, Seq<(Seq<char>, SettingValueView)>)>,
    section: Seq<char>,
    key: Seq<char>,
) -> Option<SettingValueView> {
    match lookup(settings, section) {
        Some(entries) => lookup(entries, key),
        None => None,
    }
}

pub proof fn lemma_first_named_unique<T>(s: Seq<(Seq<char>, T)>, name: Seq<char>, i: int, k: int)
    requires
        first_named(s, name, i),
        first_named(s, name, k),
    ensures
        i == k,
{
    if i < k {
        assert(s[i].0 != name);
    } else if k < i {
        assert(s[k].0 != name);
    }
}

/// The text that std's `String::from_utf8_lossy` makes of `bytes`.
pub uninterp spec fn utf8_lossy_text(bytes: Seq<u8>) -> Seq<char>;

/// The hyphenated text of the version 5 UUID that `uuid` derives from `name`
/// in the OID namespace.
pub uninterp spec fn uuid_v5_oid_text(name: Seq<u8>) -> Seq<char>;

/// Calls `String::from_utf8_lossy(bytes).into_owned()`. Claimed: the text is
/// a function of the bytes alone. How the bytes decode, and which
/// replacement characters stand in for invalid sequences, is not stated.
#[verifier::external_body]
pub(crate) fn utf8_lossy(bytes: &[u8]) -> (r: String)
    ensures
        r@ == utf8_lossy_text(bytes@),
{
    String::from_utf8_lossy(bytes).into_owned()
}

/// Calls `uuid::Uuid::new_v5(&uuid::Uuid::NAMESPACE_OID, name)` and formats
/// the result with `to_string`. Claimed: the text is a function of `name`
/// alone (the UUID is a SHA-1 digest of the namespace and the name).
#[verifier::external_body]
fn uuid_v5_oid(name: &[u8]) -> (r: String)
    ensures
        r@ == uuid_v5_oid_text(name@),
{
    uuid::Uuid::new_v5(&uuid::Uuid::NAMESPACE_OID, name).to_string()
}

/// Whether two strings hold the same characters.
pub(crate) fn str_eq(a: &str, b: &str) -> (r: bool)
    ensures
        r == (a@ == b@),
{
    a.to_owned() == b.to_owned()
}

/// The settings that `build_connection_settings` makes for an access point
/// with this security, SSID and password: a `connection` section with the
/// type, the id (the SSID read as text) and a UUID derived from the SSID; a
/// `802-11-wireless` section with the raw SSID; and, for every security but
/// open and unknown, a `802-11-wireless-security` section with the key
/// management and, when a password is given, the password under the key
/// that security expects.
pub open spec fn connection_settings_view(
    security: WifiSecurity,
    ssid: Seq<u8>,
    password: Option<Seq<char>>,
) -> Seq<(Seq<char>, Seq<(Seq<char>, SettingValueView)>)> {
    settings_from_parts_view(security, ssid, password, utf8_lossy_text(ssid), uuid_v5_oid_text(ssid))
}

/// The settings for an access point with this security, SSID and password,
/// given the connection's id and UUID texts.
pub open spec fn settings_from_parts_view(
    security: WifiSecurity,
    ssid: Seq<u8>,
    password: Option<Seq<char>>,
    id: Seq<char>,
    uuid: Seq<char>,
) -> Seq<(Seq<char>, Seq<(Seq<char>, SettingValueView)>)> {
    let connection = seq![
        ("type"@, SettingValueView::Text("802-11-wireless"@)),
        ("id"@, SettingValueView::Text(id)),
        ("uuid"@, SettingValueView::Text(uuid)),
    ];
    let wireless = seq![("ssid"@, SettingValueView::Bytes(ssid))];
    let base = seq![("connection"@, connection), ("802-11-wireless"@, wireless)];
    if has_security_section(security) {
        let key_mgmt = seq![("key-mgmt"@, SettingValueView::Text(nm_params_view(security).0))];
        let secret = match password {
            Some(p) => seq![(nm_params_view(security).1, SettingValueView::Text(p))],
            None => Seq::empty(),
        };
        base.push(("802-11-wireless-security"@, key_mgmt + secret))
    } else {
        base
    }
}

pub open spec fn opt_str_view(o: Option<&str>) -> Option<Seq<char>> {
    match o {
        Some(s) => Some(s@),
        None => None,
    }
}

impl WifiSecurity {
    /// The key management for this security and the key under which its
    /// secret goes.
    pub fn nm_params(&self) -> (r: (&'static str, &'static str))
        ensures
            (r.0@, r.1@) == nm_params_view(*self),
    {
        match self {
            WifiSecurity::Wpa | WifiSecurity::Wpa2 => ("wpa-psk", "psk"),
            WifiSecurity::Wep => ("none", "wep-key0"),
            WifiSecurity::Enterprise => ("wpa-eap", "password"),
            _ => ("none", ""),
        }
    }

    /// Builds the settings of a new connection to the network `ssid`: its id
    /// is the SSID read as text, its UUID the version 5 UUID of the SSID in
    /// the OID namespace, so that one network always gets the same UUID.
    pub fn build_connection_settings(&self, ssid: &[u8], password: Option<&str>) -> (r:
        ConnectionSettings)
        ensures
            r@ == connection_settings_view(*self, ssid@, opt_str_view(password)),
    {
        let id = utf8_lossy(ssid);
        let uuid = uuid_v5_oid(ssid);
        self.settings_from_parts(ssid, password, id, uuid)
    }

    /// The settings of a new connection to the network `ssid`, with the given
    /// id and UUID texts (see `settings_from_parts_view`).
    pub fn settings_from_parts(&self, ssid: &[u8], password: Option<&str>, id: String, uuid: String) -> (r:
        ConnectionSettings)
        ensures
            r@ == settings_from_parts_view(*self, ssid@, opt_str_view(password), id@, uuid@),
    {
        let (key_mgmt, pwd_key) = self.nm_params();

        let mut conn: Vec<SettingEntry> = Vec::new();
        conn.push(
            SettingEntry { key: "type", value: SettingValue::Text(String::from_str("802-11-wireless")) },
        );
        conn.push(SettingEntry { key: "id", value: SettingValue::Text(id) });
        conn.push(SettingEntry { key: "uuid", value: SettingValue::Text(uuid) });

        let mut wifi: Vec<SettingEntry> = Vec::new();
        wifi.push(SettingEntry { key: "ssid", value: SettingValue::Bytes(slice_to_vec(ssid)) });

        let mut sections: Vec<SettingSection> = Vec::new();
        sections.push(SettingSection { name: "connection", entries: conn });
        sections.push(SettingSection { name: "802-11-wireless", entries: wifi });

        if *self != WifiSecurity::Open && *self != WifiSecurity::Unknown {
            let mut sec: Vec<SettingEntry> = Vec::new();
            sec.push(SettingEntry { key: "key-mgmt", value: SettingValue::Text(String::from_str(key_mgmt)) });
            if let Some(p) = password {
                sec.push(SettingEntry { key: pwd_key, value: SettingValue::Text(String::from_str(p)) });
            }
            sections.push(SettingSection { name: "802-11-wireless-security", entries: sec });
        }
        let r = ConnectionSettings { sections };
        proof {
            let expected = settings_from_parts_view(*self, ssid@, opt_str_view(password), id@, uuid@);
            assert(r@[0].1 =~= expected[0].1);
            assert(r@[1].1 =~= expected[1].1);
            if has_security_section(*self) {
                assert(r@[2].1 =~= expected[2].1);
            }
            assert(r@ =~= expected);
        }
        r
    }
}

/// Every connection to a network gets the same UUID, whatever its security
/// and password: the version 5 UUID of the SSID; and its id is the SSID
/// read as text.
pub proof fn lemma_connection_identity(security: WifiSecurity, ssid: Seq<u8>, password: Option<Seq<char>>)
    ensures
        settings_lookup(connection_settings_view(security, ssid, password), "connection"@, "uuid"@)
            == Some(SettingValueView::Text(uuid_v5_oid_text(ssid))),
        settings_lookup(connection_settings_view(security, ssid, password), "connection"@, "id"@)
            == Some(SettingValueView::Text(utf8_lossy_text(ssid))),
{
    let v = connection_settings_view(security, ssid, password);
    reveal_strlit("connection");
    reveal_strlit("type");
    reveal_strlit("id");
    reveal_strlit("uuid");
    assert(first_named(v, "connection"@, 0));
    let c = choose|i: int| first_named(v, "connection"@, i);
    lemma_first_named_unique(v, "connection"@, 0, c);
    let entries = v[0].1;
    assert("type"@[0] != "uuid"@[0]);
    assert("id"@.len() != "uuid"@.len());
    assert("type"@.len() != "id"@.len());
    assert(first_named(entries, "uuid"@, 2));
    let u = choose|i: int| first_named(entries, "uuid"@, i);
    lemma_first_named_unique(entries, "uuid"@, 2, u);
    assert(first_named(entries, "id"@, 1));
    let d = choose|i: int| first_named(entries, "id"@, i);
    lemma_first_named_unique(entries, "id"@, 1, d);
}

/// Whatever the security and password, the settings name the connection
/// type `802-11-wireless`, carry the given id and UUID, and carry the raw
/// SSID, byte for byte, in the `802-11-wireless` section.
pub proof fn lemma_settings_core_entries(
    security: WifiSecurity,
    ssid: Seq<u8>,
    password: Option<Seq<char>>,
    id: Seq<char>,
    uuid: Seq<char>,
)
    ensures
        settings_lookup(settings_from_parts_view(security, ssid, password, id, uuid), "802-11-wireless"@, "ssid"@)
            == Some(SettingValueView::Bytes(ssid)),
        settings_lookup(settings_from_parts_view(security, ssid, password, id, uuid), "connection"@, "type"@)
            == Some(SettingValueView::Text("802-11-wireless"@)),
        settings_lookup(settings_from_parts_view(security, ssid, password, id, uuid), "connection"@, "id"@)
            == Some(SettingValueView::Text(id)),
        settings_lookup(settings_from_parts_view(security, ssid, password, id, uuid), "connection"@, "uuid"@)
            == Some(SettingValueView::Text(uuid)),
{
    let v = settings_from_parts_view(security, ssid, password, id, uuid);
    reveal_strlit("connection");
    reveal_strlit("802-11-wireless");
    reveal_strlit("type");
    reveal_strlit("id");
    reveal_strlit("uuid");
    reveal_strlit("ssid");
    assert("connection"@.len() != "802-11-wireless"@.len());
    assert(first_named(v, "connection"@, 0));
    let c = choose|i: int| first_named(v, "connection"@, i);
    lemma_first_named_unique(v, "connection"@, 0, c);
    assert(first_named(v, "802-11-wireless"@, 1));
    let w = choose|i: int| first_named(v, "802-11-wireless"@, i);
    lemma_first_named_unique(v, "802-11-wireless"@, 1, w);
    let conn = v[0].1;
    let wifi = v[1].1;
    assert("type"@[0] != "uuid"@[0]);
    assert("id"@.len() != "uuid"@.len());
    assert("type"@.len() != "id"@.len());
    assert(first_named(wifi, "ssid"@, 0));
    let q = choose|i: int| first_named(wifi, "ssid"@, i);
    lemma_first_named_unique(wifi, "ssid"@, 0, q);
    assert(first_named(conn, "type"@, 0));
    let t = choose|i: int| first_named(conn, "type"@, i);
    lemma_first_named_unique(conn, "type"@, 0, t);
    assert(first_named(conn, "id"@, 1));
    let d = choose|i: int| first_named(conn, "id"@, i);
    lemma_first_named_unique(conn, "id"@, 1, d);
    assert(first_named(conn, "uuid"@, 2));
    let u = choose|i: int| first_named(conn, "uuid"@, i);
    lemma_first_named_unique(conn, "uuid"@, 2, u);
}

/// A connection to a network, whatever its security, carries the network's
/// raw SSID in the `802-11-wireless` section.
pub proof fn lemma_connection_carries_ssid(security: WifiSecurity, ssid: Seq<u8>, password: Option<Seq<char>>)
    ensures
        settings_lookup(connection_settings_view(security, ssid, password), "802-11-wireless"@, "ssid"@)
            == Some(SettingValueView::Bytes(ssid)),
        settings_lookup(connection_settings_view(security, ssid, password), "connection"@, "type"@)
            == Some(SettingValueView::Text("802-11-wireless"@)),
{
    lemma_settings_core_entries(security, ssid, password, utf8_lossy_text(ssid), uuid_v5_oid_text(ssid));
}

/// A connection carries a security section exactly when its security is
/// neither open nor unknown; the section names the key management, and
/// holds the password, under the key its security expects, exactly when a
/// password was given.
pub proof fn lemma_security_section(security: WifiSecurity, ssid: Seq<u8>, password: Option<Seq<char>>)
    ensures
        (lookup(connection_settings_view(security, ssid, password), "802-11-wireless-security"@)
            is Some) == has_security_section(security),
        has_security_section(security) ==> settings_lookup(
            connection_settings_view(security, ssid, password),
            "802-11-wireless-security"@,
            "key-mgmt"@,
        ) == Some(SettingValueView::Text(nm_params_view(security).0)),
        has_security_section(security) ==> settings_lookup(
            connection_settings_view(security, ssid, password),
            "802-11-wireless-security"@,
            nm_params_view(security).1,
        ) == match password {
            Some(p) => Some(SettingValueView::Text(p)),
            None => None::<SettingValueView>,
        },
{
    let v = connection_settings_view(security, ssid, password);
    let name = "802-11-wireless-security"@;
    reveal_strlit("802-11-wireless-security");
    reveal_strlit("connection");
    reveal_strlit("802-11-wireless");
    reveal_strlit("key-mgmt");
    reveal_strlit("psk");
    reveal_strlit("wep-key0");
    reveal_strlit("password");
    assert(v[0].0.len() != name.len());
    assert(v[1].0.len() != name.len());
    if has_security_section(security) {
        assert(first_named(v, name, 2));
        let c = choose|i: int| first_named(v, name, i);
        lemma_first_named_unique(v, name, 2, c);
        let entries = v[2].1;
        assert(first_named(entries, "key-mgmt"@, 0));
        let k = choose|i: int| first_named(entries, "key-mgmt"@, i);
        lemma_first_named_unique(entries, "key-mgmt"@, 0, k);
        let key = nm_params_view(security).1;
        assert(key[0] != "key-mgmt"@[0]);
        match password {
            Some(p) => {
                assert(first_named(entries, key, 1));
                let q = choose|i: int| first_named(entries, key, i);
                lemma_first_named_unique(entries, key, 1, q);
            },
            None => {
                assert(entries.len() == 1);
                assert(!exists|i: int| first_named(entries, key, i));
            },
        }
    } else {
        assert(v.len() == 2);
        assert(!exists|i: int| first_named(v, name, i));
    }
}

/// The names of the pairs in `s` are pairwise distinct.
pub open spec fn distinct_names<T>(s: Seq<(Seq<char>, T)>) -> bool {
    forall|i: int, j: int| 0 <= i < j < s.len() ==> #[trigger] s[i].0 != #[trigger] s[j].0
}

/// As in a map, no section of a new connection's settings is named twice,
/// and no key occurs twice within a section.
pub proof fn lemma_settings_names_distinct(
    security: WifiSecurity,
    ssid: Seq<u8>,
    password: Option<Seq<char>>,
)
    ensures
        distinct_names(connection_settings_view(security, ssid, password)),
        forall|i: int|
            0 <= i < connection_settings_view(security, ssid, password).len() ==> distinct_names(
                #[trigger] connection_settings_view(security, ssid, password)[i].1,
            ),
{
    let v = connection_settings_view(security, ssid, password);
    reveal_strlit("connection");
    reveal_strlit("802-11-wireless");
    reveal_strlit("802-11-wireless-security");
    reveal_strlit("type");
    reveal_strlit("id");
    reveal_strlit("uuid");
    reveal_strlit("ssid");
    reveal_strlit("key-mgmt");
    reveal_strlit("psk");
    reveal_strlit("wep-key0");
    reveal_strlit("password");
    reveal_strlit("");
    assert("connection"@.len() != "802-11-wireless"@.len());
    assert("connection"@.len() != "802-11-wireless-security"@.len());
    assert("802-11-wireless"@.len() != "802-11-wireless-security"@.len());
    assert("type"@[0] != "uuid"@[0]);
    assert("id"@.len() != "uuid"@.len());
    assert("type"@.len() != "id"@.len());
    assert(distinct_names(v));
    assert forall|i: int| 0 <= i < v.len() implies distinct_names(#[trigger] v[i].1) by {
        if i == 2 {
            let key = nm_params_view(security).1;
            assert(key[0] != "key-mgmt"@[0]);
        }
    }
}

impl ConnectionSettings {
    /// Whether there is a section named `section`.
    pub fn contains_key(&self, section: &str) -> (r: bool)
        ensures
            r == lookup(self@, section@) is Some,
    {
        let mut i: usize = 0;
        while i < self.sections.len()
            invariant
                i <= self.sections@.len(),
                forall|j: int| 0 <= j < i ==> self@[j].0 != section@,
            decreases self.sections@.len() - i,
        {
            if str_eq(self.sections[i].name, section) {
                assert(first_named(self@, section@, i as int));
                return true;
            }
            i = i + 1;
        }
        assert(!exists|k: int| first_named(self@, section@, k));
        false
    }

    /// The value under `key` in the section `section`, if both are there.
    pub fn get(&self, section: &str, key: &str) -> (r: Option<&SettingValue>)
        ensures
            match r {
                Some(v) => settings_lookup(self@, section@, key@) == Some(v@),
                None => settings_lookup(self@, section@, key@) is None,
            },
    {
        let mut i: usize = 0;
        while i < self.sections.len()
            invariant
                i <= self.sections@.len(),
                forall|j: int| 0 <= j < i ==> self@[j].0 != section@,
            decreases self.sections@.len() - i,
        {
            if str_eq(self.sections[i].name, section) {
                proof {
                    assert(first_named(self@, section@, i as int));
                    let c = choose|k: int| first_named(self@, section@, k);
                    lemma_first_named_unique(self@, section@, i as int, c);
                }
                let entries = &self.sections[i].entries;
                let ghost ev = self@[i as int].1;
                assert(lookup(self@, section@) == Some(ev));
                let mut k: usize = 0;
                while k < entries.len()
                    invariant
                        k <= entries@.len(),
                        ev == entries@.map_values(|e: SettingEntry| entry_view(e)),
                        lookup(self@, section@) == Some(ev),
                        forall|j: int| 0 <= j < k ==> ev[j].0 != key@,
                    decreases entries@.len() - k,
                {
                    if str_eq(entries[k].key, key) {
                        proof {
                            assert(first_named(ev, key@, k as int));
                            let c = choose|q: int| first_named(ev, key@, q);
                            lemma_first_named_unique(ev, key@, k as int, c);
                        }
                        return Some(&entries[k].value);
                    }
                    k = k + 1;
                }
                assert(!exists|q: int| first_named(ev, key@, q));
                return None;
            }
            i = i + 1;
        }
        assert(!exists|k: int| first_named(self@, section@, k));
        None
    }
}

} // verus!
