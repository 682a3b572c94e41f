//! Follower-tracking core: validation of identifiers and URLs, session-cookie
//! selection, decoding of the Instagram web API's JSON, snapshot diffing and
//! relationship classification.

pub mod error;
pub mod models;
pub mod db;
pub mod avatars;
pub mod commands;
pub mod cookies;
pub mod json;
pub mod instagram;
pub mod text;
pub mod laws;
