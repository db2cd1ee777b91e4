pub mod config;
pub mod db;
pub mod endpoint;
pub mod error;
pub mod lobby;
pub mod media;
pub mod peer;
pub mod relay;
pub mod rtc;
