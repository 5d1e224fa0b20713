//! Verified core of a proxy that lets Sonarr, Radarr and Lidarr use put.io as
//! if it were a Transmission download client.

pub mod text;
pub mod bencode;
pub mod media;
pub mod putio;
pub mod config;
pub mod categories;
pub mod transfer;
pub mod orchestration;
pub mod transmission;
pub mod rpc;
