//! A YGG Torrent indexer: searching the tracker (through the yggapi.eu API),
//! sorting and filtering the results, reading the tracker's pages, logging in
//! (with the Scrappey fallback against Cloudflare) and downloading torrent files.
//! The network, the clock and the HTTP server stay with the caller; this crate
//! holds the rules, each with its contract.
pub mod text;
pub mod urls;
pub mod numbers;
pub mod search;
pub mod parser;
pub mod rest;
pub mod yggapi;
pub mod scrappey;
pub mod auth;
pub mod login;
pub mod html;
pub mod categories;
pub mod user;
pub mod utils;
pub mod config;
