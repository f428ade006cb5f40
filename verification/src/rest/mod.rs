//! The decisions behind the HTTP endpoints.
pub mod search;
pub mod torrent;
pub mod download;
pub mod bench;
pub mod infos;
