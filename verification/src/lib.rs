//! Link resolution and bookkeeping for a Ventoy asset manager: the static
//! catalog model, the resolvers that turn a request into a download plan,
//! configuration handling and the small text utilities they rest on.

pub mod text;
pub mod error;
pub mod catalog;
pub mod cli;
pub mod paths;
pub mod config;
pub mod http;
pub mod source;
pub mod select;
pub mod order;
pub mod pattern;
pub mod download;
pub mod calendar;
pub mod catalog_gen;
pub mod checksum;
