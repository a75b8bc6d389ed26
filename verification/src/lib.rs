pub mod api;
pub mod client;
pub mod config;
pub mod credentials;
pub mod dates;
pub mod error;
pub mod render;
