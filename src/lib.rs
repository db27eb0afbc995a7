//! Local secret storage for a service credential bundle: classification of
//! the host's secret-storage facilities, key resolution, authenticated
//! encryption of the bundle and the framing of what is persisted.

pub mod cipher;
pub mod config;
pub mod envelope;
pub mod environment;
pub mod error;
pub mod models;
pub mod storage;
pub mod text;
