//! Verified core of a WebDAV / CalDAV / CardDAV client.

pub mod auth;
pub mod bodies;
pub mod builder;
pub mod common;
pub mod compression;
pub mod error;
pub mod etag;
pub mod hrefmap;
pub mod message;
pub mod multiget;
pub mod multistatus;
pub mod names;
pub mod nsscope;
pub mod numbers;
pub mod percent;
pub mod pipeline;
pub mod requests;
pub mod retry;
pub mod sync;
pub mod text;
pub mod types;
pub mod uri;
pub mod xml;
pub mod xmlread;
pub mod xmltext;
