pub mod error;
pub mod network_manager;

use crate::backend::error::NMError;
use vstd::prelude::*;

verus! {

/// A source of Wi-Fi networks that can scan, connect and report the current network.
pub trait WifiBackend {
    fn scan(&self) -> Result<Vec<WifiNetwork>, NMError>;

    fn connect(&self, ssid: &str, password: Option<&str>) -> Result<(), NMError>;

    fn current(&self) -> Result<Option<WifiNetwork>, NMError>;
}

/// A Wi-Fi network as a backend reports it.
#[derive(Debug, Clone)]
pub struct WifiNetwork {
    pub ssid: String,
    pub strength: u8,
    pub secured: bool,
}

} // verus!
