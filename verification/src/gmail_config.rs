//! The settings of the single-account mail fetcher.
use vstd::prelude::*;

verus! {

/// The fetcher's settings file.
#[derive(Debug)]
pub struct Config {
    pub imap: IMAP,
}

/// The IMAP account to read mail from.
#[derive(Debug)]
pub struct IMAP {
    pub domain: String,
    pub port: u16,
    pub username: String,
}

} // verus!
