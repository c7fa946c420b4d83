//! What the engine is started with.

use crate::encoding::{DEFAULT_HASH_LEN, MIN_HASH_LEN};
use vstd::prelude::*;

verus! {

/// The number of entries that the cache holds where none is configured.
pub const DEFAULT_BUFFER_LEN: usize = 1000;

/// Which of the two token strategies is in use.
#[derive(Clone, Copy, Debug, PartialEq, Eq, Structural)]
pub enum Mode {
    Hash,
    Obfuscation,
}

/// The settings of one engine, as they were found at startup: a setting that
/// was not given is `None`.
pub struct Config {
    /// The token strategy.
    pub mode: Mode,
    /// Where the durable table is.
    pub database_url: Option<String>,
    /// The secret salt of the obfuscation strategy.
    pub salt: Option<String>,
    /// The token length of the hash strategy.
    pub uri_len: Option<usize>,
    /// The capacity of the cache.
    pub buffer_len: Option<usize>,
}

impl Config {
    /// The token length that the hash strategy would use.
    pub open spec fn hash_length(self) -> usize {
        match self.uri_len {
            Some(length) => length,
            None => DEFAULT_HASH_LEN,
        }
    }

    /// The capacity that the cache would have.
    pub open spec fn capacity(self) -> usize {
        match self.buffer_len {
            Some(capacity) => capacity,
            None => DEFAULT_BUFFER_LEN,
        }
    }

    /// An engine can be built: the table's location is given, and so is what
    /// the chosen strategy needs, a salt or a token length of six or more.
    pub open spec fn valid(self) -> bool {
        &&& self.database_url is Some
        &&& match self.mode {
            Mode::Hash => self.hash_length() >= MIN_HASH_LEN,
            Mode::Obfuscation => self.salt is Some,
        }
    }
}

} // verus!
