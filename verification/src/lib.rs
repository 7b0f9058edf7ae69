//! Client core for a cloud object-storage XML API: request construction,
//! conditional-write semantics, the multipart-upload lifecycle, XML codecs,
//! paginated listing, and delegated blob signing.
//!
//! Every operation is split into pure steps: a *plan* builder that assembles
//! one HTTP request as plain data, and a *finish* step that interprets the
//! transport's outcome. The transport itself (I/O, retry execution,
//! credential refresh) lives outside this crate and exchanges plain values
//! with it.

pub mod errors;
pub mod httpext;
pub mod strutil;
pub mod encoding;
pub mod types;
pub mod xml;
pub mod config;
pub mod request;
pub mod client;
pub mod laws;
