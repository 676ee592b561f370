pub mod app;
pub mod error;
pub mod handler;
pub mod models;
