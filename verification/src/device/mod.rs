pub mod types;
pub mod wifi;
