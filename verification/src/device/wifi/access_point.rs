use crate::device::wifi::sec_types::{
    utf8_lossy, utf8_lossy_text, NM80211ApFlags, NM80211ApSecFlags, WifiSecurity, AP_FLAGS_ALL,
    SEC_FLAGS_ALL,
};
use vstd::prelude::*;
use vstd::string::*;

verus! {

/// An update of the list of networks, as the D-Bus listener reports it.
pub enum AccessPointUpdate {
    Added(NetworkDisplayInfo),
    Removed(String),
    PropertyChanged { path: String, strength: u8 },
}

/// An access point as the list shows it.
#[derive(Debug, Clone)]
pub struct NetworkDisplayInfo {
    pub ssid: String,
    pub strength: u8,
    pub band: &'static str,
    pub security: WifiSecurity,
    pub path: String,
}

/// The band of a frequency in MHz: above 4000 MHz is the 5 GHz band.
pub open spec fn band_of_frequency(frequency: u32) -> Seq<char> {
    if frequency > 4000 {
        "5GHz"@
    } else {
        "2.4GHz"@
    }
}

/// The band label for a frequency in MHz.
pub fn band_label(frequency: u32) -> (r: &'static str)
    ensures
        r@ == band_of_frequency(frequency),
{
    if frequency > 4000 {
        "5GHz"
    } else {
        "2.4GHz"
    }
}

/// The SSID of an access point as text: its raw bytes read as UTF-8, with
/// invalid sequences replaced.
pub fn ssid_from_raw(raw: &[u8]) -> (r: String)
    ensures
        r@ == utf8_lossy_text(raw@),
{
    utf8_lossy(raw)
}

/// The security of an access point from its WPA and RSN flags: both sets
/// together, unknown bits dropped.
pub fn security_from_flags(wpa: u32, rsn: u32) -> (r: WifiSecurity)
    ensures
        r == crate::device::wifi::sec_types::security_of_bits((wpa | rsn) & SEC_FLAGS_ALL),
{
    let flags = NM80211ApSecFlags::from_bits_truncate(wpa | rsn);
    WifiSecurity::from(flags)
}

/// The general flags of an access point from their raw value, unknown bits dropped.
pub fn ap_flags_from_raw(raw: u32) -> (r: NM80211ApFlags)
    ensures
        r@ == raw & AP_FLAGS_ALL,
{
    NM80211ApFlags::from_bits_truncate(raw)
}

impl NetworkDisplayInfo {
    /// The entry for an access point from what could be read of it: a missing
    /// SSID shows as `<hidden>`, a missing strength as 0, a missing frequency
    /// as the 2.4 GHz band, a missing security as unknown.
    pub fn from_readings(
        ssid: Option<String>,
        strength: Option<u8>,
        frequency: Option<u32>,
        security: Option<WifiSecurity>,
        path: String,
    ) -> (r: Self)
        ensures
            r.ssid@ == (match ssid {
                Some(s) => s@,
                None => "<hidden>"@,
            }),
            r.strength == (match strength {
                Some(s) => s,
                None => 0u8,
            }),
            r.band@ == band_of_frequency(
                match frequency {
                    Some(f) => f,
                    None => 0u32,
                },
            ),
            r.security == (match security {
                Some(s) => s,
                None => WifiSecurity::Unknown,
            }),
            r.path == path,
    {
        let ssid = match ssid {
            Some(s) => s,
            None => String::from_str("<hidden>"),
        };
        let strength = match strength {
            Some(s) => s,
            None => 0,
        };
        let frequency = match frequency {
            Some(f) => f,
            None => 0,
        };
        let security = match security {
            Some(s) => s,
            None => WifiSecurity::Unknown,
        };
        NetworkDisplayInfo { ssid, strength, band: band_label(frequency), security, path }
    }

    /// A copy of the entry, equal to it.
    pub fn duplicate(&self) -> (r: Self)
        ensures
            r == *self,
    {
        NetworkDisplayInfo {
            ssid: self.ssid.clone(),
            strength: self.strength,
            band: self.band,
            security: self.security,
            path: self.path.clone(),
        }
    }
}

} // verus!
