//! Turning mail fetched over IMAP into Atom feed entries.
use vstd::prelude::*;

pub mod atom;
pub mod capture;
pub mod config;
pub mod date;
pub mod entry;
pub mod feed;
pub mod gmail_config;
pub mod message;
pub mod query;
pub mod text;
