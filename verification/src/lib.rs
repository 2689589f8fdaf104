//! VortexDL: a music downloader with a web API that keeps a local library and
//! mirrors it onto Android devices over ADB. This crate holds the verified
//! logic; I/O stays with the caller.
pub mod adb;
pub mod adb_device;
pub mod api;
pub mod text;
pub mod youtube;
