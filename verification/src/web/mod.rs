//! Helpers of the web interface.
pub mod pagination;
pub mod auth;
pub mod admin;
pub mod views;
pub mod oauth_requests;
pub mod book_edits;
pub mod gates;
pub mod i18n;
