//! The OPDS catalogue: Atom documents, download names and feed composition.
pub mod xml;
pub mod download;
pub mod feeds;
pub mod documents;
pub mod delivery;
