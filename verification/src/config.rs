//! The proxy's configuration.

use vstd::prelude::*;

verus! {

/// Connection details of one *arr application.
#[derive(Debug)]
pub struct ArrConfig {
    pub url: String,
    pub api_key: String,
}

/// put.io credentials.
#[derive(Debug)]
pub struct PutioConfig {
    pub api_key: String,
}

/// Settings read from the configuration file.
#[derive(Debug)]
pub struct Config {
    pub bind_address: String,
    pub download_directory: String,
    pub download_workers: usize,
    pub loglevel: String,
    pub orchestration_workers: usize,
    pub password: String,
    pub polling_interval: u64,
    pub port: u16,
    pub skip_directories: Vec<String>,
    pub uid: u32,
    pub username: String,
    pub putio: PutioConfig,
    pub sonarr: Option<ArrConfig>,
    pub radarr: Option<ArrConfig>,
    pub whisparr: Option<ArrConfig>,
    pub lidarr: Option<ArrConfig>,
}

} // verus!
