//! OpenRss: turn web sources into RSS, Atom and JSON feeds.
pub mod text;
pub mod number;
pub mod data;
pub mod pattern;
pub mod middleware;
pub mod feed;
pub mod http;
pub mod error;
pub mod time;
pub mod routes;
pub mod codec;
pub mod config;
pub mod registry;
