//! The web API's logic.
pub mod download_manager;
pub mod errors;
pub mod models;
pub mod search;
pub mod stream;
pub mod settings;
pub mod tracks;
pub mod state;
pub mod download;
pub mod proxy;
pub mod devices;
