//! Verified core of a terminal Wi-Fi manager for NetworkManager.
//!
//! The library holds what the program decides: how raw NetworkManager
//! values (device codes, security flags, SSID bytes) are read, how the
//! connection settings for an access point are built, how the scan results
//! are reduced to one entry per network, and the state machine of the
//! terminal front end (list, selection, password entry, status line).
//! The D-Bus traffic and the drawing live around it.

pub mod backend;
pub mod device;
pub mod wifi;
pub mod tui;
