//! Saves forum threads for offline reading: recognises thread addresses,
//! plans which pages to fetch, rewrites page and style-sheet links to local
//! copies, and holds the configuration of the supported forums.
use vstd::prelude::*;

pub mod address;
pub mod assets;
pub mod auth;
pub mod cli;
pub mod css;
pub mod document;
pub mod downloader;
pub mod error;
pub mod forums;
pub mod html;
pub mod i18n;
pub mod laws;
pub mod page_laws;
pub mod patterns;
pub mod schedule;
pub mod text;
pub mod types;

verus! {
}
