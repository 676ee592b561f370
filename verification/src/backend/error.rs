use vstd::prelude::*;
use vstd::string::*;

verus! {

#[verifier::external_type_specification]
#[verifier::external_body]
pub struct ExZbusError(zbus::Error);

/// Calls `format!("{}", err)` on a `zbus::Error`, its `Display` text.
/// Nothing is claimed of the text.
#[verifier::external_body]
pub(crate) fn dbus_error_text(err: &zbus::Error) -> String {
    format!("{}", err)
}

/// Error type for all NetworkManager-related operations.
///
/// This wraps lower-level D-Bus errors and provides semantic errors
/// relevant to Wi-Fi and device management.
#[derive(Debug)]
pub enum NMError {
    /// A D-Bus-level error occurred.
    Dbus(zbus::Error),
    /// No NetworkManager-related device was found on the system.
    NoDeviceFound,
    /// The provided SSID was empty or invalid.
    InvalidSsid(String),
    /// Connection attempt to a given SSID failed.
    ConnectionFailed(String),
    /// Stream fail with D-Bus.
    SignalError(String),
    /// Network not found error.
    NetworkNotFound(String),
}

/// Whether `text` is how `NMError::message` describes `e`: the D-Bus error's
/// own text after `D-bus error: `, a fixed sentence for a missing device,
/// and the carried SSID or message after a fixed prefix for the others.
pub open spec fn describes_nm_error(e: NMError, text: Seq<char>) -> bool {
    match e {
        NMError::Dbus(_) => "D-bus error: "@.is_prefix_of(text),
        NMError::NoDeviceFound => text == "No device found!"@,
        NMError::InvalidSsid(ssid) => text == "Invalid SSID "@ + ssid@,
        NMError::ConnectionFailed(ssid) => text == "Failed to connect to SSID "@ + ssid@,
        NMError::SignalError(msg) => text == "Signal error: "@ + msg@,
        NMError::NetworkNotFound(msg) => text == "Network not found: "@ + msg@,
    }
}

impl NMError {
    /// The text shown to the user for this error.
    pub fn message(&self) -> (r: String)
        ensures
            describes_nm_error(*self, r@),
    {
        match self {
            NMError::Dbus(err) => {
                let text = dbus_error_text(err);
                let r = String::from_str("D-bus error: ").concat(text.as_str());
                proof {
                    reveal_strlit("D-bus error: ");
                    assert(r@.subrange(0, 13) =~= "D-bus error: "@);
                }
                r
            },
            NMError::NoDeviceFound => String::from_str("No device found!"),
            NMError::InvalidSsid(ssid) => String::from_str("Invalid SSID ").concat(ssid.as_str()),
            NMError::ConnectionFailed(ssid) => String::from_str("Failed to connect to SSID ").concat(
                ssid.as_str(),
            ),
            NMError::SignalError(msg) => String::from_str("Signal error: ").concat(msg.as_str()),
            NMError::NetworkNotFound(msg) => String::from_str("Network not found: ").concat(
                msg.as_str(),
            ),
        }
    }
}

/// Allows automatic conversion from `zbus::Error`, so that `?` works in
/// proxy code returning this error type.
impl From<zbus::Error> for NMError {
    fn from(err: zbus::Error) -> (r: Self) {
        NMError::Dbus(err)
    }
}

impl vstd::std_specs::convert::FromSpecImpl<zbus::Error> for NMError {
    open spec fn obeys_from_spec() -> bool {
        true
    }

    open spec fn from_spec(v: zbus::Error) -> Self {
        NMError::Dbus(v)
    }
}

} // verus!
