use crate::backend::error::dbus_error_text;
use vstd::prelude::*;
use vstd::string::*;

verus! {

/// Errors of the first NetworkManager backend.
#[derive(Debug)]
pub enum WifiError {
    Dbus(zbus::Error),
    NoDeviceFound,
    InvalidSsid(String),
    ConnectionFailed(String),
}

/// Whether `text` is how `WifiError::message` describes `e`.
pub open spec fn describes_wifi_error(e: WifiError, text: Seq<char>) -> bool {
    match e {
        WifiError::Dbus(_) => "D-bus error: "@.is_prefix_of(text),
        WifiError::NoDeviceFound => text == "No device found!"@,
        WifiError::InvalidSsid(ssid) => text == "Invalid SSID "@ + ssid@,
        WifiError::ConnectionFailed(ssid) => text == "Failed to connect to SSID "@ + ssid@,
    }
}

impl WifiError {
    /// The text shown to the user for this error.
    pub fn message(&self) -> (r: String)
        ensures
            describes_wifi_error(*self, r@),
    {
        match self {
            WifiError::Dbus(err) => {
                let text = dbus_error_text(err);
                let r = String::from_str("D-bus error: ").concat(text.as_str());
                proof {
                    reveal_strlit("D-bus error: ");
                    assert(r@.subrange(0, 13) =~= "D-bus error: "@);
                }
                r
            },
            WifiError::NoDeviceFound => String::from_str("No device found!"),
            WifiError::InvalidSsid(ssid) => String::from_str("Invalid SSID ").concat(ssid.as_str()),
            WifiError::ConnectionFailed(ssid) => String::from_str(
                "Failed to connect to SSID ",
            ).concat(ssid.as_str()),
        }
    }
}

/// Allows automatic conversion from `zbus::Error`, so that `?` works in
/// proxy code returning this error type.
impl From<zbus::Error> for WifiError {
    fn from(err: zbus::Error) -> (r: Self) {
        WifiError::Dbus(err)
    }
}

impl vstd::std_specs::convert::FromSpecImpl<zbus::Error> for WifiError {
    open spec fn obeys_from_spec() -> bool {
        true
    }

    open spec fn from_spec(v: zbus::Error) -> Self {
        WifiError::Dbus(v)
    }
}

} // verus!
