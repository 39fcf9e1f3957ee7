//! A library for a personal e-book catalogue served over OPDS: metadata
//! extraction, catalogue bookkeeping, feed building and request helpers.
pub mod text;
pub mod decimal;
pub mod parsers;
pub mod util;
pub mod web;
pub mod db;
pub mod crypto;
pub mod oauth;
pub mod assets;
pub mod pdf;
pub mod config;
pub mod opds;
pub mod paths;
pub mod password;
pub mod scanner;
pub mod xmlread;
pub mod ziparchive;
