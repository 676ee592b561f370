pub mod error;
pub mod nm;

use crate::wifi::error::WifiError;
use vstd::prelude::*;

verus! {

/// A source of Wi-Fi networks that can scan, connect and report the current network.
pub trait WifiBackend {
    fn scan(&self) -> Result<Vec<WifiNetwork>, WifiError>;

    fn connect(&self, ssid: &str, password: Option<&str>) -> Result<(), WifiError>;

    fn current(&self) -> Result<Option<WifiNetwork>, WifiError>;
}

/// A Wi-Fi network as a backend reports it.
#[derive(Debug, Clone)]
pub struct WifiNetwork {
    pub ssid: String,
    pub strength: u8,
    pub secured: bool,
}

} // verus!
