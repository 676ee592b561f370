pub mod access_point;
pub mod ranking;
pub mod sec_types;
